//! What an agent's context is made of: its system prompt, put together from the built-in
//! prompt, the skills and sub-agents it has and the caller's prompt; and its tools, in order.
use vstd::prelude::*;
use std::sync::Arc;
use crate::skill::{Skill, instructions_text};
use crate::subagent::{SubAgentDef, SubAgentRegistry, find_def, names_sorted};
use crate::prompts::{MAIN_AGENT_SYSTEM_PROMPT, SUB_AGENT_SYSTEM_PROMPT};
use crate::todo::TodoTool;
use crate::json_validate::JsonValidateTool;
use crate::spawn::{SpawnSubAgentTool, ParallelSubAgentTool};
use crate::types::{Message, Model, opt_string_view};
use crate::text::{
    owned, push_char, seq_join, seq_concat, join_strings, concat_strings, strings_view,
    trim_start, trim_start_spec, starts_with,
};

verus! {

// ---------------------------------------------------------------------------
// Tool execution mode
// ---------------------------------------------------------------------------

/// How the tool calls of one turn are run.
#[derive(Debug, Clone, Copy, PartialEq, Eq, Structural)]
pub enum ToolExecutionMode {
    Parallel,
    Sequential,
}

impl Default for ToolExecutionMode {
    /// Calls run in parallel unless asked otherwise.
    fn default() -> (r: Self)
        ensures
            r == ToolExecutionMode::Parallel,
    {
        ToolExecutionMode::Parallel
    }
}

// ---------------------------------------------------------------------------
// XML escaping
// ---------------------------------------------------------------------------

/// The text that stands for one character in XML.
pub open spec fn escape_char(c: char) -> Seq<char> {
    if c == '&' {
        "&amp;"@
    } else if c == '<' {
        "&lt;"@
    } else if c == '>' {
        "&gt;"@
    } else if c == '"' {
        "&quot;"@
    } else if c == '\'' {
        "&apos;"@
    } else {
        seq![c]
    }
}

/// `s` with each of `& < > " '` replaced by its entity.
pub open spec fn escape_text(s: Seq<char>) -> Seq<char>
    decreases s.len(),
{
    if s.len() == 0 {
        Seq::empty()
    } else {
        escape_text(s.drop_last()) + escape_char(s.last())
    }
}

/// A character that has a meaning in XML markup.
pub open spec fn is_markup(c: char) -> bool {
    c == '<' || c == '>' || c == '"' || c == '\''
}

/// Escapes `s` for use as XML text: `&`, `<`, `>`, `"` and `'` become entities.
pub fn escape_xml(s: &str) -> (r: String)
    ensures
        r@ == escape_text(s@),
{
    let cs = crate::text::chars_of(s);
    let mut out = String::new();
    let mut i: usize = 0;
    proof {
        reveal_strlit("&amp;");
        reveal_strlit("&lt;");
        reveal_strlit("&gt;");
        reveal_strlit("&quot;");
        reveal_strlit("&apos;");
        assert(out@ =~= escape_text(cs@.take(0)));
    }
    while i < cs.len()
        invariant
            cs@ == s@,
            i <= cs@.len(),
            out@ == escape_text(cs@.take(i as int)),
        decreases cs@.len() - i,
    {
        let c = cs[i];
        if c == '&' {
            out.append("&amp;");
        } else if c == '<' {
            out.append("&lt;");
        } else if c == '>' {
            out.append("&gt;");
        } else if c == '"' {
            out.append("&quot;");
        } else if c == '\'' {
            out.append("&apos;");
        } else {
            push_char(&mut out, c);
        }
        assert(cs@.take(i + 1).drop_last() =~= cs@.take(i as int));
        assert(cs@.take(i + 1).last() == c);
        i = i + 1;
    }
    assert(cs@.take(cs@.len() as int) =~= cs@);
    out
}

/// Escaped text holds no character with a meaning in XML markup, so a name or a
/// description can never open or close a tag.
pub proof fn law_escaped_text_has_no_markup(s: Seq<char>)
    ensures
        forall|i: int| 0 <= i < escape_text(s).len() ==> !is_markup(#[trigger] escape_text(s)[i]),
    decreases s.len(),
{
    reveal_strlit("&amp;");
    reveal_strlit("&lt;");
    reveal_strlit("&gt;");
    reveal_strlit("&quot;");
    reveal_strlit("&apos;");
    if s.len() > 0 {
        law_escaped_text_has_no_markup(s.drop_last());
        let a = escape_text(s.drop_last());
        let b = escape_char(s.last());
        assert forall|i: int| 0 <= i < (a + b).len() implies !is_markup(#[trigger] (a + b)[i]) by {
            if i >= a.len() {
                assert((a + b)[i] == b[i - a.len()]);
            }
        }
    }
}

/// Text without any of `& < > " '` is left as it is.
pub proof fn law_plain_text_is_unchanged(s: Seq<char>)
    requires
        forall|i: int| 0 <= i < s.len() ==> !is_markup(#[trigger] s[i]) && s[i] != '&',
    ensures
        escape_text(s) == s,
    decreases s.len(),
{
    if s.len() > 0 {
        law_plain_text_is_unchanged(s.drop_last());
        assert(s.drop_last() + seq![s.last()] =~= s);
    }
}

/// The characters that `escape_xml` replaces.
pub open spec fn is_special(c: char) -> bool {
    is_markup(c) || c == '&'
}

/// `&lt;`, `&gt;`, `&quot;`, `&apos;`, `&amp;` as character sequences.
pub open spec fn ent_lt() -> Seq<char> { seq!['&', 'l', 't', ';'] }
pub open spec fn ent_gt() -> Seq<char> { seq!['&', 'g', 't', ';'] }
pub open spec fn ent_quot() -> Seq<char> { seq!['&', 'q', 'u', 'o', 't', ';'] }
pub open spec fn ent_apos() -> Seq<char> { seq!['&', 'a', 'p', 'o', 's', ';'] }
pub open spec fn ent_amp() -> Seq<char> { seq!['&', 'a', 'm', 'p', ';'] }

/// Reads escaped text back: each of `&lt;`, `&gt;`, `&quot;`, `&apos;` and `&amp;` becomes
/// its character; everything else stays.
pub open spec fn unescape_text(s: Seq<char>) -> Seq<char>
    decreases s.len(),
{
    if s.len() == 0 {
        Seq::empty()
    } else if starts_with(s, ent_lt()) {
        seq!['<'] + unescape_text(s.subrange(4, s.len() as int))
    } else if starts_with(s, ent_gt()) {
        seq!['>'] + unescape_text(s.subrange(4, s.len() as int))
    } else if starts_with(s, ent_quot()) {
        seq!['"'] + unescape_text(s.subrange(6, s.len() as int))
    } else if starts_with(s, ent_apos()) {
        seq!['\''] + unescape_text(s.subrange(6, s.len() as int))
    } else if starts_with(s, ent_amp()) {
        seq!['&'] + unescape_text(s.subrange(5, s.len() as int))
    } else {
        seq![s[0]] + unescape_text(s.drop_first())
    }
}

proof fn lemma_escape_concat(a: Seq<char>, b: Seq<char>)
    ensures
        escape_text(a + b) == escape_text(a) + escape_text(b),
    decreases b.len(),
{
    if b.len() == 0 {
        assert(a + b =~= a);
        assert(escape_text(a) + escape_text(b) =~= escape_text(a));
    } else {
        lemma_escape_concat(a, b.drop_last());
        assert((a + b).drop_last() =~= a + b.drop_last());
        assert((a + b).last() == b.last());
    }
}

proof fn lemma_escape_front(s: Seq<char>)
    requires
        s.len() > 0,
    ensures
        escape_text(s) == escape_char(s[0]) + escape_text(s.drop_first()),
{
    assert(s =~= seq![s[0]] + s.drop_first());
    lemma_escape_concat(seq![s[0]], s.drop_first());
    assert(seq![s[0]].drop_last() =~= Seq::<char>::empty());
    assert(seq![s[0]].last() == s[0]);
    assert(escape_text(Seq::<char>::empty()) == Seq::<char>::empty());
    assert(escape_text(seq![s[0]]) =~= escape_char(s[0]));
}

/// `t` does not begin with `p` where the two differ at position `j`.
proof fn lemma_not_prefix(t: Seq<char>, p: Seq<char>, j: int)
    requires
        0 <= j < p.len(),
        j < t.len(),
        t[j] != p[j],
    ensures
        !starts_with(t, p),
{
    if p.len() <= t.len() {
        assert(t.subrange(0, p.len() as int)[j] == t[j]);
    }
}

/// `p` followed by `rest` begins with `p`, and what follows it is `rest`.
proof fn lemma_prefix(p: Seq<char>, rest: Seq<char>)
    ensures
        starts_with(p + rest, p),
        (p + rest).subrange(p.len() as int, (p + rest).len() as int) == rest,
{
    assert((p + rest).subrange(0, p.len() as int) =~= p);
    assert((p + rest).subrange(p.len() as int, (p + rest).len() as int) =~= rest);
}

/// Unescaping one escaped character in front of any text gives that character back in
/// front of the unescaped rest.
proof fn lemma_unescape_char(c: char, rest: Seq<char>)
    ensures
        unescape_text(escape_char(c) + rest) == seq![c] + unescape_text(rest),
{
    reveal_strlit("&amp;");
    reveal_strlit("&lt;");
    reveal_strlit("&gt;");
    reveal_strlit("&quot;");
    reveal_strlit("&apos;");
    let e = escape_char(c);
    let t = e + rest;
    lemma_prefix(e, rest);
    if c == '&' {
        assert(e =~= ent_amp());
        lemma_not_prefix(t, ent_lt(), 1);
        lemma_not_prefix(t, ent_gt(), 1);
        lemma_not_prefix(t, ent_quot(), 1);
        lemma_not_prefix(t, ent_apos(), 2);
    } else if c == '<' {
        assert(e =~= ent_lt());
    } else if c == '>' {
        assert(e =~= ent_gt());
        lemma_not_prefix(t, ent_lt(), 1);
    } else if c == '"' {
        assert(e =~= ent_quot());
        lemma_not_prefix(t, ent_lt(), 1);
        lemma_not_prefix(t, ent_gt(), 1);
    } else if c == '\'' {
        assert(e =~= ent_apos());
        lemma_not_prefix(t, ent_lt(), 1);
        lemma_not_prefix(t, ent_gt(), 1);
        lemma_not_prefix(t, ent_quot(), 1);
    } else {
        assert(e =~= seq![c]);
        assert(t[0] == c);
        lemma_not_prefix(t, ent_lt(), 0);
        lemma_not_prefix(t, ent_gt(), 0);
        lemma_not_prefix(t, ent_quot(), 0);
        lemma_not_prefix(t, ent_apos(), 0);
        lemma_not_prefix(t, ent_amp(), 0);
        assert(t.drop_first() =~= rest);
    }
}

/// Unescaping escaped text gives the text back.
pub proof fn law_unescape_undoes_escape(s: Seq<char>)
    ensures
        unescape_text(escape_text(s)) == s,
    decreases s.len(),
{
    if s.len() == 0 {
    } else {
        lemma_escape_front(s);
        law_unescape_undoes_escape(s.drop_first());
        lemma_unescape_char(s[0], escape_text(s.drop_first()));
        assert(seq![s[0]] + s.drop_first() =~= s);
    }
}

/// `s` with each occurrence of the non-empty pattern `p`, found from left to right without
/// overlap, replaced by `r` (what `str::replace` does); the replacements are not searched again.
pub open spec fn replace_all(s: Seq<char>, p: Seq<char>, r: Seq<char>) -> Seq<char>
    decreases s.len(),
{
    if s.len() == 0 || p.len() == 0 {
        s
    } else if starts_with(s, p) {
        r + replace_all(s.subrange(p.len() as int, s.len() as int), p, r)
    } else {
        seq![s[0]] + replace_all(s.drop_first(), p, r)
    }
}

/// Reads escaped text back by replacing, over the whole text and in this order, `&lt;`,
/// `&gt;`, `&quot;`, `&apos;` and last `&amp;` by their characters.
pub open spec fn unescape_by_replacing(s: Seq<char>) -> Seq<char> {
    let s1 = replace_all(s, ent_lt(), seq!['<']);
    let s2 = replace_all(s1, ent_gt(), seq!['>']);
    let s3 = replace_all(s2, ent_quot(), seq!['"']);
    let s4 = replace_all(s3, ent_apos(), seq!['\'']);
    replace_all(s4, ent_amp(), seq!['&'])
}

/// The character that replacing step `k` restores, and the entity it replaces.
spec fn step_char(k: int) -> char {
    if k == 0 { '<' } else if k == 1 { '>' } else if k == 2 { '"' } else if k == 3 { '\'' } else { '&' }
}

spec fn step_entity(k: int) -> Seq<char> {
    if k == 0 {
        ent_lt()
    } else if k == 1 {
        ent_gt()
    } else if k == 2 {
        ent_quot()
    } else if k == 3 {
        ent_apos()
    } else {
        ent_amp()
    }
}

/// `c` is restored by the first `k` replacing steps.
spec fn restored(k: int, c: char) -> bool {
    ||| (k > 0 && c == '<')
    ||| (k > 1 && c == '>')
    ||| (k > 2 && c == '"')
    ||| (k > 3 && c == '\'')
    ||| (k > 4 && c == '&')
}

/// The escaped text after the first `k` replacing steps, character by character.
spec fn stage_char(k: int, c: char) -> Seq<char> {
    if restored(k, c) { seq![c] } else { escape_char(c) }
}

spec fn stage_text(k: int, s: Seq<char>) -> Seq<char>
    decreases s.len(),
{
    if s.len() == 0 {
        Seq::empty()
    } else {
        stage_char(k, s[0]) + stage_text(k, s.drop_first())
    }
}

/// Replacing leaves a piece alone that does not start a match and holds `&` nowhere
/// but in front.
proof fn lemma_replace_passes(u: Seq<char>, rest: Seq<char>, p: Seq<char>, r: Seq<char>)
    requires
        p.len() > 0,
        p[0] == '&',
        forall|j: int| 1 <= j < u.len() ==> u[j] != '&',
        u.len() > 0 ==> !starts_with(u + rest, p),
    ensures
        replace_all(u + rest, p, r) == u + replace_all(rest, p, r),
    decreases u.len(),
{
    if u.len() == 0 {
        assert(u + rest =~= rest);
        assert(u + replace_all(rest, p, r) =~= replace_all(rest, p, r));
    } else {
        let x = u + rest;
        let u1 = u.drop_first();
        assert(x.drop_first() =~= u1 + rest);
        assert(x[0] == u[0]);
        if u1.len() > 0 {
            assert((u1 + rest)[0] == u[1]);
            lemma_not_prefix(u1 + rest, p, 0);
        }
        lemma_replace_passes(u1, rest, p, r);
        assert(seq![u[0]] + (u1 + replace_all(rest, p, r)) =~= u + replace_all(rest, p, r));
    }
}

/// The piece of one character at stage `k` passes replacing step `k` untouched, unless it
/// is the entity that step replaces.
proof fn lemma_piece_passes(k: int, c: char, rest: Seq<char>)
    requires
        0 <= k < 5,
        c != step_char(k),
    ensures
        replace_all(stage_char(k, c) + rest, step_entity(k), seq![step_char(k)])
            == stage_char(k, c) + replace_all(rest, step_entity(k), seq![step_char(k)]),
{
    reveal_strlit("&amp;");
    reveal_strlit("&lt;");
    reveal_strlit("&gt;");
    reveal_strlit("&quot;");
    reveal_strlit("&apos;");
    let t = stage_char(k, c);
    let p = step_entity(k);
    let x = t + rest;
    assert(p[0] == '&');
    if restored(k, c) || !is_special(c) {
        assert(t =~= seq![c]);
        assert(x[0] == c);
        lemma_not_prefix(x, p, 0);
    } else if c == '&' {
        assert(t =~= ent_amp());
        if k == 3 {
            assert(x[2] == 'm');
            lemma_not_prefix(x, p, 2);
        } else {
            assert(x[1] == 'a');
            lemma_not_prefix(x, p, 1);
        }
    } else if c == '>' {
        assert(t =~= ent_gt());
        assert(x[1] == 'g');
        lemma_not_prefix(x, p, 1);
    } else if c == '"' {
        assert(t =~= ent_quot());
        assert(x[1] == 'q');
        lemma_not_prefix(x, p, 1);
    } else {
        assert(c == '\'');
        assert(t =~= ent_apos());
        assert(x[1] == 'a');
        lemma_not_prefix(x, p, 1);
    }
    lemma_replace_passes(t, rest, p, seq![step_char(k)]);
}

/// Replacing step `k` turns the text at stage `k` into the text at stage `k + 1`.
proof fn lemma_replacing_step(k: int, s: Seq<char>)
    requires
        0 <= k < 5,
    ensures
        replace_all(stage_text(k, s), step_entity(k), seq![step_char(k)]) == stage_text(k + 1, s),
    decreases s.len(),
{
    reveal_strlit("&amp;");
    reveal_strlit("&lt;");
    reveal_strlit("&gt;");
    reveal_strlit("&quot;");
    reveal_strlit("&apos;");
    if s.len() > 0 {
        let c = s[0];
        let rest = stage_text(k, s.drop_first());
        let p = step_entity(k);
        let r = seq![step_char(k)];
        lemma_replacing_step(k, s.drop_first());
        if c == step_char(k) {
            let t = stage_char(k, c);
            assert(t =~= p);
            lemma_prefix(t, rest);
            assert(stage_char(k + 1, c) =~= r);
        } else {
            lemma_piece_passes(k, c, rest);
            assert(stage_char(k + 1, c) == stage_char(k, c));
        }
    }
}

proof fn lemma_escape_is_stage_zero(s: Seq<char>)
    ensures
        escape_text(s) == stage_text(0, s),
    decreases s.len(),
{
    if s.len() > 0 {
        lemma_escape_front(s);
        lemma_escape_is_stage_zero(s.drop_first());
    }
}

proof fn lemma_last_stage_is_text(s: Seq<char>)
    ensures
        stage_text(5, s) == s,
    decreases s.len(),
{
    if s.len() > 0 {
        lemma_last_stage_is_text(s.drop_first());
        assert(stage_char(5, s[0]) =~= seq![s[0]]);
        assert(seq![s[0]] + s.drop_first() =~= s);
    }
}

/// Replacing the entities in escaped text, `&amp;` last, gives the text back.
pub proof fn law_replacing_entities_undoes_escape(s: Seq<char>)
    ensures
        unescape_by_replacing(escape_text(s)) == s,
{
    lemma_escape_is_stage_zero(s);
    lemma_replacing_step(0, s);
    lemma_replacing_step(1, s);
    lemma_replacing_step(2, s);
    lemma_replacing_step(3, s);
    lemma_replacing_step(4, s);
    lemma_last_stage_is_text(s);
}

/// Escaping leaves text as it is exactly when it holds none of `& < > " '`.
pub proof fn law_escape_changes_only_special_text(s: Seq<char>)
    ensures
        escape_text(s) == s <==> forall|i: int| 0 <= i < s.len() ==> !is_special(#[trigger] s[i]),
{
    if forall|i: int| 0 <= i < s.len() ==> !is_special(#[trigger] s[i]) {
        law_plain_text_is_unchanged(s);
    } else {
        let i = choose|i: int| 0 <= i < s.len() && is_special(#[trigger] s[i]);
        lemma_escape_longer(s, i);
    }
}

/// Text with a special character grows when escaped.
proof fn lemma_escape_longer(s: Seq<char>, i: int)
    requires
        0 <= i < s.len(),
        is_special(s[i]),
    ensures
        escape_text(s).len() > s.len(),
    decreases s.len(),
{
    reveal_strlit("&amp;");
    reveal_strlit("&lt;");
    reveal_strlit("&gt;");
    reveal_strlit("&quot;");
    reveal_strlit("&apos;");
    lemma_escape_not_shorter(s.drop_last());
    if i == s.len() - 1 {
        assert(escape_char(s.last()).len() > 1);
    } else {
        assert(s.drop_last()[i] == s[i]);
        lemma_escape_longer(s.drop_last(), i);
    }
}

proof fn lemma_escape_not_shorter(s: Seq<char>)
    ensures
        escape_text(s).len() >= s.len(),
    decreases s.len(),
{
    reveal_strlit("&amp;");
    reveal_strlit("&lt;");
    reveal_strlit("&gt;");
    reveal_strlit("&quot;");
    reveal_strlit("&apos;");
    if s.len() > 0 {
        lemma_escape_not_shorter(s.drop_last());
    }
}

// ---------------------------------------------------------------------------
// System prompt
// ---------------------------------------------------------------------------

/// The four lines that list one entry: `  <tag>`, its name and description (escaped), `  </tag>`.
pub open spec fn entry_lines(tag: Seq<char>, name: Seq<char>, description: Seq<char>) -> Seq<Seq<char>> {
    seq![
        "  <"@ + tag + ">"@,
        "    <name>"@ + escape_text(name) + "</name>"@,
        "    <description>"@ + escape_text(description) + "</description>"@,
        "  </"@ + tag + ">"@,
    ]
}

/// The lines of all entries, in order.
pub open spec fn entries_lines(tag: Seq<char>, entries: Seq<(Seq<char>, Seq<char>)>) -> Seq<Seq<char>>
    decreases entries.len(),
{
    if entries.len() == 0 {
        Seq::empty()
    } else {
        entries_lines(tag, entries.drop_last()) + entry_lines(tag, entries.last().0, entries.last().1)
    }
}

/// An introduction, a blank line and the entries inside `<list_tag>` ... `</list_tag>`,
/// one per line; nothing when there are no entries.
pub open spec fn listing_text(
    intro: Seq<char>,
    list_tag: Seq<char>,
    tag: Seq<char>,
    entries: Seq<(Seq<char>, Seq<char>)>,
) -> Seq<char> {
    if entries.len() == 0 {
        Seq::empty()
    } else {
        seq_join(
            seq![intro, Seq::empty(), "<"@ + list_tag + ">"@] + entries_lines(tag, entries)
                + seq!["</"@ + list_tag + ">"@],
            "\n"@,
        )
    }
}

pub open spec fn skill_entries<T>(skills: Seq<Arc<Skill<T>>>) -> Seq<(Seq<char>, Seq<char>)> {
    skills.map_values(|s: Arc<Skill<T>>| (s.name@, s.description@))
}

pub open spec fn def_entries<T>(defs: Seq<Arc<SubAgentDef<T>>>) -> Seq<(Seq<char>, Seq<char>)> {
    defs.map_values(|d: Arc<SubAgentDef<T>>| (d.name@, d.description@))
}

pub open spec fn skills_intro() -> Seq<char> {
    "The following skills provide specialized instructions and tools for specific tasks."@
}

pub open spec fn sub_agents_intro() -> Seq<char> {
    "The following sub-agents are available for delegation. Use `spawn_subagent` or `parallel_subagent` to dispatch them."@
}

/// The skills an agent has, as `<available_skills>`.
pub open spec fn skills_xml_text<T>(skills: Seq<Arc<Skill<T>>>) -> Seq<char> {
    listing_text(skills_intro(), "available_skills"@, "skill"@, skill_entries(skills))
}

/// The sub-agents a main agent can dispatch, as `<available_sub_agents>`; nothing for a
/// sub-agent.
pub open spec fn sub_agents_xml_text<T>(defs: Seq<Arc<SubAgentDef<T>>>, is_subagent: bool) -> Seq<char> {
    if is_subagent {
        Seq::empty()
    } else {
        listing_text(sub_agents_intro(), "available_sub_agents"@, "sub_agent"@, def_entries(defs))
    }
}

/// The instruction sections of the skills, one after the other.
pub open spec fn skill_sections_text<T>(skills: Seq<Arc<Skill<T>>>) -> Seq<char> {
    seq_concat(skills.map_values(|s: Arc<Skill<T>>| instructions_text(s.name@, strings_view(s.instructions@))))
}

/// The built-in prompt for a main agent or for a sub-agent.
pub open spec fn builtin_prompt(is_subagent: bool) -> Seq<char> {
    if is_subagent { SUB_AGENT_SYSTEM_PROMPT@ } else { MAIN_AGENT_SYSTEM_PROMPT@ }
}

/// The parts of the system prompt, in order: the built-in prompt, the skills listing, the
/// sub-agents listing, the skill instructions (without their leading whitespace) and the
/// caller's prompt, each only where it is not empty. Static parts come first.
pub open spec fn prompt_parts(
    is_subagent: bool,
    skills_xml: Seq<char>,
    sub_agents_xml: Seq<char>,
    sections: Seq<char>,
    base: Seq<char>,
) -> Seq<Seq<char>> {
    seq![builtin_prompt(is_subagent)]
        + (if skills_xml.len() > 0 { seq![skills_xml] } else { Seq::empty() })
        + (if sub_agents_xml.len() > 0 { seq![sub_agents_xml] } else { Seq::empty() })
        + (if sections.len() > 0 { seq![trim_start_spec(sections)] } else { Seq::empty() })
        + (if base.len() > 0 { seq![base] } else { Seq::empty() })
}

/// The system prompt of an agent: its parts joined by blank lines.
pub open spec fn system_prompt_text<T>(
    is_subagent: bool,
    skills: Seq<Arc<Skill<T>>>,
    defs: Seq<Arc<SubAgentDef<T>>>,
    base: Seq<char>,
) -> Seq<char> {
    seq_join(
        prompt_parts(
            is_subagent,
            skills_xml_text(skills),
            sub_agents_xml_text(defs, is_subagent),
            skill_sections_text(skills),
            base,
        ),
        "\n\n"@,
    )
}

fn listing(intro: &str, list_tag: &str, tag: &str, entries: &Vec<(&str, &str)>) -> (r: String)
    ensures
        r@ == listing_text(intro@, list_tag@, tag@, entries@.map_values(|e: (&str, &str)| (e.0@, e.1@))),
{
    let ghost ev = entries@.map_values(|e: (&str, &str)| (e.0@, e.1@));
    if entries.len() == 0 {
        return String::new();
    }
    let mut lines: Vec<String> = Vec::new();
    lines.push(owned(intro));
    lines.push(String::new());
    let mut open = owned("<");
    open.append(list_tag);
    open.append(">");
    lines.push(open);
    let ghost head = seq![intro@, Seq::<char>::empty(), "<"@ + list_tag@ + ">"@];
    assert(strings_view(lines@) =~= head + entries_lines(tag@, ev.take(0)));
    let mut i: usize = 0;
    while i < entries.len()
        invariant
            i <= entries@.len(),
            ev == entries@.map_values(|e: (&str, &str)| (e.0@, e.1@)),
            strings_view(lines@) == head + entries_lines(tag@, ev.take(i as int)),
        decreases entries@.len() - i,
    {
        let ghost prev = strings_view(lines@);
        let (name, description) = entries[i];
        let mut a = owned("  <");
        a.append(tag);
        a.append(">");
        let mut b = owned("    <name>");
        b.append(escape_xml(name).as_str());
        b.append("</name>");
        let mut c = owned("    <description>");
        c.append(escape_xml(description).as_str());
        c.append("</description>");
        let mut d = owned("  </");
        d.append(tag);
        d.append(">");
        lines.push(a);
        lines.push(b);
        lines.push(c);
        lines.push(d);
        assert(ev.take(i + 1).drop_last() =~= ev.take(i as int));
        assert(ev.take(i + 1).last() == ev[i as int]);
        assert(strings_view(lines@) =~= prev + entry_lines(tag@, ev[i as int].0, ev[i as int].1));
        i = i + 1;
    }
    let mut close = owned("</");
    close.append(list_tag);
    close.append(">");
    let ghost before = strings_view(lines@);
    lines.push(close);
    assert(ev.take(entries@.len() as int) =~= ev);
    assert(strings_view(lines@) =~= before.push("</"@ + list_tag@ + ">"@));
    assert(strings_view(lines@) =~= seq![intro@, Seq::<char>::empty(), "<"@ + list_tag@ + ">"@]
        + entries_lines(tag@, ev) + seq!["</"@ + list_tag@ + ">"@]);
    join_strings(&lines, "\n")
}

/// `<available_skills>` for the skills, or nothing when there are none.
pub fn skills_xml<T>(skills: &Vec<Arc<Skill<T>>>) -> (r: String)
    ensures
        r@ == skills_xml_text(skills@),
{
    let mut entries: Vec<(&str, &str)> = Vec::new();
    let mut i: usize = 0;
    while i < skills.len()
        invariant
            i <= skills@.len(),
            entries@.map_values(|e: (&str, &str)| (e.0@, e.1@)) == skill_entries(skills@).take(i as int),
        decreases skills@.len() - i,
    {
        let ghost prev = entries@.map_values(|e: (&str, &str)| (e.0@, e.1@));
        entries.push((skills[i].name.as_str(), skills[i].description.as_str()));
        assert(entries@.map_values(|e: (&str, &str)| (e.0@, e.1@)) =~= prev.push((skills@[i as int].name@, skills@[i as int].description@)));
        assert(skill_entries(skills@).take(i + 1) =~= skill_entries(skills@).take(i as int).push((skills@[i as int].name@, skills@[i as int].description@)));
        i = i + 1;
    }
    assert(skill_entries(skills@).take(skills@.len() as int) =~= skill_entries(skills@));
    listing(
        "The following skills provide specialized instructions and tools for specific tasks.",
        "available_skills",
        "skill",
        &entries,
    )
}

/// `<available_sub_agents>` for the definitions, or nothing for a sub-agent or when there
/// are none.
pub fn sub_agents_xml<T>(defs: &Vec<Arc<SubAgentDef<T>>>, is_subagent: bool) -> (r: String)
    ensures
        r@ == sub_agents_xml_text(defs@, is_subagent),
{
    if is_subagent {
        return String::new();
    }
    let mut entries: Vec<(&str, &str)> = Vec::new();
    let mut i: usize = 0;
    while i < defs.len()
        invariant
            i <= defs@.len(),
            entries@.map_values(|e: (&str, &str)| (e.0@, e.1@)) == def_entries(defs@).take(i as int),
        decreases defs@.len() - i,
    {
        let ghost prev = entries@.map_values(|e: (&str, &str)| (e.0@, e.1@));
        entries.push((defs[i].name.as_str(), defs[i].description.as_str()));
        assert(entries@.map_values(|e: (&str, &str)| (e.0@, e.1@)) =~= prev.push((defs@[i as int].name@, defs@[i as int].description@)));
        assert(def_entries(defs@).take(i + 1) =~= def_entries(defs@).take(i as int).push((defs@[i as int].name@, defs@[i as int].description@)));
        i = i + 1;
    }
    assert(def_entries(defs@).take(defs@.len() as int) =~= def_entries(defs@));
    listing(
        "The following sub-agents are available for delegation. Use `spawn_subagent` or `parallel_subagent` to dispatch them.",
        "available_sub_agents",
        "sub_agent",
        &entries,
    )
}

/// The instruction sections of the skills, in order.
pub fn skill_sections<T>(skills: &Vec<Arc<Skill<T>>>) -> (r: String)
    ensures
        r@ == skill_sections_text(skills@),
{
    let ghost all = skills@.map_values(|s: Arc<Skill<T>>| instructions_text(s.name@, strings_view(s.instructions@)));
    let mut parts: Vec<String> = Vec::new();
    let mut i: usize = 0;
    while i < skills.len()
        invariant
            i <= skills@.len(),
            all == skills@.map_values(|s: Arc<Skill<T>>| instructions_text(s.name@, strings_view(s.instructions@))),
            strings_view(parts@) == all.take(i as int),
        decreases skills@.len() - i,
    {
        let ghost prev = strings_view(parts@);
        parts.push(skills[i].to_instructions_section());
        assert(strings_view(parts@) =~= prev.push(all[i as int]));
        assert(all.take(i + 1) =~= all.take(i as int).push(all[i as int]));
        i = i + 1;
    }
    assert(all.take(skills@.len() as int) =~= all);
    concat_strings(&parts)
}

/// The system prompt of an agent with these skills and sub-agents: the built-in prompt
/// (for a sub-agent or a main agent), then the skills listing, the sub-agents listing (main
/// agents only), the skill instructions and the caller's prompt, each where not empty,
/// separated by blank lines.
pub fn compose_system_prompt<T>(
    is_subagent: bool,
    skills: &Vec<Arc<Skill<T>>>,
    defs: &Vec<Arc<SubAgentDef<T>>>,
    base: &str,
) -> (r: String)
    ensures
        r@ == system_prompt_text(is_subagent, skills@, defs@, base@),
{
    let sx = skills_xml(skills);
    let dx = sub_agents_xml(defs, is_subagent);
    let sections = skill_sections(skills);
    let mut parts: Vec<String> = Vec::new();
    if is_subagent {
        parts.push(owned(SUB_AGENT_SYSTEM_PROMPT));
    } else {
        parts.push(owned(MAIN_AGENT_SYSTEM_PROMPT));
    }
    let ghost p0 = strings_view(parts@);
    if !sx.as_str().is_empty() {
        parts.push(sx);
    }
    let ghost p1 = strings_view(parts@);
    assert(p1 =~= p0 + (if skills_xml_text(skills@).len() > 0 { seq![skills_xml_text(skills@)] } else { Seq::empty() }));
    if !dx.as_str().is_empty() {
        parts.push(dx);
    }
    let ghost p2 = strings_view(parts@);
    assert(p2 =~= p1 + (if sub_agents_xml_text(defs@, is_subagent).len() > 0 {
        seq![sub_agents_xml_text(defs@, is_subagent)]
    } else {
        Seq::empty()
    }));
    if !sections.as_str().is_empty() {
        parts.push(trim_start(sections.as_str()));
    }
    let ghost p3 = strings_view(parts@);
    assert(p3 =~= p2 + (if skill_sections_text(skills@).len() > 0 {
        seq![trim_start_spec(skill_sections_text(skills@))]
    } else {
        Seq::empty()
    }));
    if !base.is_empty() {
        parts.push(owned(base));
    }
    assert(strings_view(parts@) =~= prompt_parts(
        is_subagent,
        skills_xml_text(skills@),
        sub_agents_xml_text(defs@, is_subagent),
        skill_sections_text(skills@),
        base@,
    ));
    join_strings(&parts, "\n\n")
}

/// Every system prompt begins with the built-in prompt for its kind of agent.
pub proof fn law_prompt_starts_with_builtin<T>(
    is_subagent: bool,
    skills: Seq<Arc<Skill<T>>>,
    defs: Seq<Arc<SubAgentDef<T>>>,
    base: Seq<char>,
)
    ensures
        system_prompt_text(is_subagent, skills, defs, base).len() >= builtin_prompt(is_subagent).len(),
        system_prompt_text(is_subagent, skills, defs, base).subrange(0, builtin_prompt(is_subagent).len() as int)
            == builtin_prompt(is_subagent),
{
    let parts = prompt_parts(
        is_subagent,
        skills_xml_text(skills),
        sub_agents_xml_text(defs, is_subagent),
        skill_sections_text(skills),
        base,
    );
    assert(parts[0] == builtin_prompt(is_subagent));
    lemma_join_starts_with_first(parts, "\n\n"@);
}

/// A join begins with its first part.
proof fn lemma_join_starts_with_first(parts: Seq<Seq<char>>, sep: Seq<char>)
    requires
        parts.len() > 0,
    ensures
        seq_join(parts, sep).len() >= parts[0].len(),
        seq_join(parts, sep).subrange(0, parts[0].len() as int) == parts[0],
    decreases parts.len(),
{
    if parts.len() > 1 {
        lemma_join_starts_with_first(parts.drop_last(), sep);
        let j = seq_join(parts.drop_last(), sep);
        assert(seq_join(parts, sep) == j + sep + parts.last());
        assert((j + sep + parts.last()).subrange(0, parts[0].len() as int) =~= j.subrange(0, parts[0].len() as int));
    } else {
        assert(parts[0].subrange(0, parts[0].len() as int) =~= parts[0]);
    }
}

/// A sub-agent's prompt never lists sub-agents to dispatch.
pub proof fn law_subagent_prompt_lists_no_sub_agents<T>(defs: Seq<Arc<SubAgentDef<T>>>)
    ensures
        sub_agents_xml_text(defs, true).len() == 0,
{
}

// ---------------------------------------------------------------------------
// Tools
// ---------------------------------------------------------------------------

/// One place in an agent's list of tools.
#[derive(Debug, Clone, Copy, PartialEq, Eq, Structural)]
pub enum ToolSlot {
    /// The task-planning tool.
    Todo,
    /// The JSON Schema validation tool.
    JsonValidate,
    /// The caller's extra tool with this index.
    Extra(usize),
    /// Tool `tool` of skill `skill`.
    SkillTool { skill: usize, tool: usize },
    /// `spawn_subagent`.
    SpawnSubAgent,
    /// `parallel_subagent`.
    ParallelSubAgent,
}

/// The tools of skill `k` that an agent gets: all of them for a main agent; for a
/// sub-agent, all but those that start agents (`spawner[j]` tells of tool `j`).
pub open spec fn skill_slots(k: usize, spawner: Seq<bool>, is_subagent: bool) -> Seq<ToolSlot>
    decreases spawner.len(),
{
    if spawner.len() == 0 {
        Seq::empty()
    } else {
        skill_slots(k, spawner.drop_last(), is_subagent) + if is_subagent && spawner.last() {
            Seq::empty()
        } else {
            seq![ToolSlot::SkillTool { skill: k, tool: (spawner.len() - 1) as usize }]
        }
    }
}

/// The tools of all skills, skill after skill.
pub open spec fn all_skill_slots(spawner: Seq<Seq<bool>>, is_subagent: bool) -> Seq<ToolSlot>
    decreases spawner.len(),
{
    if spawner.len() == 0 {
        Seq::empty()
    } else {
        all_skill_slots(spawner.drop_last(), is_subagent)
            + skill_slots((spawner.len() - 1) as usize, spawner.last(), is_subagent)
    }
}

/// An agent's tools, in order: todo and json_validate, the caller's extra tools, the
/// skills' tools, and for a main agent `spawn_subagent` and `parallel_subagent`.
pub open spec fn lineup(is_subagent: bool, extra: nat, spawner: Seq<Seq<bool>>) -> Seq<ToolSlot> {
    seq![ToolSlot::Todo, ToolSlot::JsonValidate]
        + Seq::new(extra, |i: int| ToolSlot::Extra(i as usize))
        + all_skill_slots(spawner, is_subagent)
        + if is_subagent { Seq::empty() } else { seq![ToolSlot::SpawnSubAgent, ToolSlot::ParallelSubAgent] }
}

/// The tools of an agent with `extra` extra tools and skills whose tools start agents as
/// `spawner[k][j]` tells (tool `j` of skill `k`).
pub fn tool_lineup(is_subagent: bool, extra: usize, spawner: &Vec<Vec<bool>>) -> (r: Vec<ToolSlot>)
    ensures
        r@ == lineup(is_subagent, extra as nat, spawner@.map_values(|v: Vec<bool>| v@)),
{
    let ghost sv = spawner@.map_values(|v: Vec<bool>| v@);
    let mut out: Vec<ToolSlot> = Vec::new();
    out.push(ToolSlot::Todo);
    out.push(ToolSlot::JsonValidate);
    let ghost head = seq![ToolSlot::Todo, ToolSlot::JsonValidate];
    let mut i: usize = 0;
    while i < extra
        invariant
            i <= extra,
            out@ == head + Seq::new(i as nat, |k: int| ToolSlot::Extra(k as usize)),
        decreases extra - i,
    {
        out.push(ToolSlot::Extra(i));
        assert(Seq::new((i + 1) as nat, |k: int| ToolSlot::Extra(k as usize))
            =~= Seq::new(i as nat, |k: int| ToolSlot::Extra(k as usize)).push(ToolSlot::Extra(i)));
        i = i + 1;
    }
    let ghost base = out@;
    assert(base == head + Seq::new(extra as nat, |k: int| ToolSlot::Extra(k as usize)));
    let mut k: usize = 0;
    while k < spawner.len()
        invariant
            k <= spawner@.len(),
            sv == spawner@.map_values(|v: Vec<bool>| v@),
            out@ == base + all_skill_slots(sv.take(k as int), is_subagent),
        decreases spawner@.len() - k,
    {
        let flags = &spawner[k];
        let ghost before = out@;
        let mut j: usize = 0;
        assert(flags@.take(0) =~= Seq::<bool>::empty());
        while j < flags.len()
            invariant
                j <= flags@.len(),
                flags@ == sv[k as int],
                out@ == before + skill_slots(k, flags@.take(j as int), is_subagent),
            decreases flags@.len() - j,
        {
            if !(is_subagent && flags[j]) {
                out.push(ToolSlot::SkillTool { skill: k, tool: j });
            }
            assert(flags@.take(j + 1).drop_last() =~= flags@.take(j as int));
            j = j + 1;
        }
        assert(flags@.take(flags@.len() as int) =~= flags@);
        assert(sv.take(k + 1).drop_last() =~= sv.take(k as int));
        assert(sv.take(k + 1).last() == sv[k as int]);
        k = k + 1;
    }
    assert(sv.take(spawner@.len() as int) =~= sv);
    if !is_subagent {
        out.push(ToolSlot::SpawnSubAgent);
        out.push(ToolSlot::ParallelSubAgent);
    }
    assert(out@ =~= lineup(is_subagent, extra as nat, sv));
    out
}

/// Slot `s` is a tool of skill `k` that does not start agents.
pub open spec fn kept_of_skill(s: ToolSlot, k: usize, spawner: Seq<bool>) -> bool {
    match s {
        ToolSlot::SkillTool { skill, tool } => skill == k && tool < spawner.len() && !spawner[tool as int],
        _ => false,
    }
}

/// Slot `s` is a skill's tool that does not start agents.
pub open spec fn kept_skill_tool(s: ToolSlot, spawner: Seq<Seq<bool>>) -> bool {
    match s {
        ToolSlot::SkillTool { skill, tool } => skill < spawner.len() && tool < spawner[skill as int].len()
            && !spawner[skill as int][tool as int],
        _ => false,
    }
}

proof fn lemma_skill_slots_no_spawner(k: usize, spawner: Seq<bool>)
    requires
        spawner.len() <= usize::MAX,
    ensures
        forall|i: int| 0 <= i < skill_slots(k, spawner, true).len() ==>
            kept_of_skill(#[trigger] skill_slots(k, spawner, true)[i], k, spawner),
    decreases spawner.len(),
{
    if spawner.len() > 0 {
        lemma_skill_slots_no_spawner(k, spawner.drop_last());
        let a = skill_slots(k, spawner.drop_last(), true);
        let b: Seq<ToolSlot> = if spawner.last() {
            Seq::empty()
        } else {
            seq![ToolSlot::SkillTool { skill: k, tool: (spawner.len() - 1) as usize }]
        };
        assert(skill_slots(k, spawner, true) == a + b);
        assert forall|i: int| 0 <= i < (a + b).len() implies kept_of_skill(#[trigger] (a + b)[i], k, spawner) by {
            if i < a.len() {
                assert((a + b)[i] == a[i]);
                assert(kept_of_skill(a[i], k, spawner.drop_last()));
            } else {
                assert((a + b)[i] == b[i - a.len()]);
            }
        }
    }
}

proof fn lemma_all_skill_slots_no_spawner(spawner: Seq<Seq<bool>>)
    requires
        spawner.len() <= usize::MAX,
        forall|k: int| 0 <= k < spawner.len() ==> #[trigger] spawner[k].len() <= usize::MAX,
    ensures
        forall|i: int| 0 <= i < all_skill_slots(spawner, true).len() ==>
            kept_skill_tool(#[trigger] all_skill_slots(spawner, true)[i], spawner),
    decreases spawner.len(),
{
    if spawner.len() > 0 {
        assert forall|k: int| 0 <= k < spawner.drop_last().len() implies #[trigger] spawner.drop_last()[k].len() <= usize::MAX by {
            assert(spawner.drop_last()[k] == spawner[k]);
        }
        lemma_all_skill_slots_no_spawner(spawner.drop_last());
        let k = (spawner.len() - 1) as usize;
        assert(spawner[spawner.len() - 1].len() <= usize::MAX);
        lemma_skill_slots_no_spawner(k, spawner.last());
        let a = all_skill_slots(spawner.drop_last(), true);
        let b = skill_slots(k, spawner.last(), true);
        assert(all_skill_slots(spawner, true) == a + b);
        assert forall|i: int| 0 <= i < (a + b).len() implies kept_skill_tool(#[trigger] (a + b)[i], spawner) by {
            if i < a.len() {
                assert((a + b)[i] == a[i]);
                assert(kept_skill_tool(a[i], spawner.drop_last()));
                assert(spawner.drop_last()[a[i]->skill as int] == spawner[a[i]->skill as int]);
            } else {
                assert((a + b)[i] == b[i - a.len()]);
                assert(kept_of_skill(b[i - a.len()], k, spawner.last()));
            }
        }
    }
}

/// A sub-agent can never start further agents: it gets neither `spawn_subagent` nor
/// `parallel_subagent`, and none of its skills' tools that start agents.
pub proof fn law_subagent_gets_no_spawner(extra: nat, spawner: Seq<Seq<bool>>)
    requires
        spawner.len() <= usize::MAX,
        forall|k: int| 0 <= k < spawner.len() ==> #[trigger] spawner[k].len() <= usize::MAX,
    ensures
        forall|i: int| 0 <= i < lineup(true, extra, spawner).len() ==> {
            let s = #[trigger] lineup(true, extra, spawner)[i];
            &&& s != ToolSlot::SpawnSubAgent
            &&& s != ToolSlot::ParallelSubAgent
            &&& (s is SkillTool ==> kept_skill_tool(s, spawner))
        },
{
    lemma_all_skill_slots_no_spawner(spawner);
    let head = seq![ToolSlot::Todo, ToolSlot::JsonValidate] + Seq::new(extra, |i: int| ToolSlot::Extra(i as usize));
    let mid = all_skill_slots(spawner, true);
    assert(lineup(true, extra, spawner) =~= head + mid);
    assert forall|i: int| 0 <= i < lineup(true, extra, spawner).len() implies {
        let s = #[trigger] lineup(true, extra, spawner)[i];
        &&& s != ToolSlot::SpawnSubAgent
        &&& s != ToolSlot::ParallelSubAgent
        &&& (s is SkillTool ==> kept_skill_tool(s, spawner))
    } by {
        if i >= head.len() {
            assert((head + mid)[i] == mid[i - head.len()]);
            assert(kept_skill_tool(mid[i - head.len()], spawner));
        } else {
            assert((head + mid)[i] == head[i]);
        }
    }
}

/// The registry of the sub-agents given to a main agent: each registered in turn, so a
/// later definition with the same name replaces an earlier one.
pub open spec fn registered<T>(defs: Seq<Arc<SubAgentDef<T>>>, n: Seq<char>) -> Option<Arc<SubAgentDef<T>>>
    decreases defs.len(),
{
    if defs.len() == 0 {
        None
    } else if defs.last().name@ == n {
        Some(defs.last())
    } else {
        registered(defs.drop_last(), n)
    }
}

/// Registers the definitions in order.
pub fn registry_of<T>(defs: &Vec<Arc<SubAgentDef<T>>>) -> (r: SubAgentRegistry<T>)
    ensures
        names_sorted(r@),
        forall|n: Seq<char>| #[trigger] find_def(r@, n) == registered(defs@, n),
{
    let mut reg: SubAgentRegistry<T> = SubAgentRegistry::new();
    let mut i: usize = 0;
    while i < defs.len()
        invariant
            i <= defs@.len(),
            names_sorted(reg@),
            forall|n: Seq<char>| #[trigger] find_def(reg@, n) == registered(defs@.take(i as int), n),
        decreases defs@.len() - i,
    {
        reg.register_arc(defs[i].clone());
        proof {
            assert(defs@.take(i + 1).drop_last() =~= defs@.take(i as int));
            assert(defs@.take(i + 1).last() == defs@[i as int]);
        }
        i = i + 1;
    }
    assert(defs@.take(defs@.len() as int) =~= defs@);
    reg
}


// ---------------------------------------------------------------------------
// Context and builder
// ---------------------------------------------------------------------------

/// The same model: equal fields.
pub open spec fn same_model(a: Model, b: Model) -> bool {
    &&& a.id@ == b.id@
    &&& a.provider == b.provider
    &&& a.api_key@ == b.api_key@
    &&& opt_string_view(a.base_url) == opt_string_view(b.base_url)
    &&& a.max_tokens == b.max_tokens
}

/// A tool of an agent. The built-in ones are held as they are; the caller's tools (and the
/// skills' tools) as the caller holds them.
pub enum ContextTool<T> {
    Todo(TodoTool),
    JsonValidate(JsonValidateTool),
    Custom(T),
    SpawnSubAgent(SpawnSubAgentTool<T>),
    ParallelSubAgent(ParallelSubAgentTool<T>),
}

/// Everything an agent runs with. `T` holds a tool, `B` and `A` the hooks called before and
/// after each tool call.
pub struct AgentContext<T, B, A> {
    pub session_id: String,
    pub system_prompt: String,
    pub messages: Vec<Message>,
    pub tools: Vec<ContextTool<T>>,
    pub model: Model,
    pub is_subagent: bool,
    pub max_iterations: usize,
    pub tool_execution: ToolExecutionMode,
    pub before_tool_call: Option<B>,
    pub after_tool_call: Option<A>,
}

pub struct AgentContextBuilderV<T, B, A> {
    pub session_id: Option<Seq<char>>,
    pub base_system_prompt: Seq<char>,
    pub model: Model,
    pub skills: Seq<Arc<Skill<T>>>,
    pub sub_agents: Seq<Arc<SubAgentDef<T>>>,
    pub extra_tools: Seq<T>,
    pub is_subagent: bool,
    pub max_iterations: usize,
    pub tool_execution: ToolExecutionMode,
    pub before_tool_call: Option<B>,
    pub after_tool_call: Option<A>,
}

/// Gathers what an agent is given, then builds its context.
pub struct AgentContextBuilder<T, B, A> {
    session_id: Option<String>,
    base_system_prompt: String,
    model: Model,
    skills: Vec<Arc<Skill<T>>>,
    sub_agents: Vec<Arc<SubAgentDef<T>>>,
    extra_tools: Vec<T>,
    is_subagent: bool,
    max_iterations: usize,
    tool_execution: ToolExecutionMode,
    before_tool_call: Option<B>,
    after_tool_call: Option<A>,
}

impl<T, B, A> View for AgentContextBuilder<T, B, A> {
    type V = AgentContextBuilderV<T, B, A>;

    closed spec fn view(&self) -> AgentContextBuilderV<T, B, A> {
        AgentContextBuilderV {
            session_id: opt_string_view(self.session_id),
            base_system_prompt: self.base_system_prompt@,
            model: self.model,
            skills: self.skills@,
            sub_agents: self.sub_agents@,
            extra_tools: self.extra_tools@,
            is_subagent: self.is_subagent,
            max_iterations: self.max_iterations,
            tool_execution: self.tool_execution,
            before_tool_call: self.before_tool_call,
            after_tool_call: self.after_tool_call,
        }
    }
}

/// The tool that stands at `slot`, given the caller's extra tools, the skills, and what the
/// spawning tools are given: the registry, the model and the parent's session id.
pub open spec fn tool_at<T>(
    t: ContextTool<T>,
    slot: ToolSlot,
    extra: Seq<T>,
    skills: Seq<Arc<Skill<T>>>,
    defs: Seq<Arc<SubAgentDef<T>>>,
    model: Model,
    session: Seq<char>,
) -> bool where T: Clone {
    match slot {
        ToolSlot::Todo => t matches ContextTool::Todo(x) && x@.len() == 0,
        ToolSlot::JsonValidate => t is JsonValidate,
        ToolSlot::Extra(k) => t matches ContextTool::Custom(x) && x == extra[k as int],
        ToolSlot::SkillTool { skill, tool } => t matches ContextTool::Custom(x)
            && cloned::<T>(skills[skill as int].tools@[tool as int], x),
        ToolSlot::SpawnSubAgent => t matches ContextTool::SpawnSubAgent(x)
            && spawner_given(x.registry()@, x.model(), x.parent_session_id()@, defs, model, session),
        ToolSlot::ParallelSubAgent => t matches ContextTool::ParallelSubAgent(x)
            && spawner_given(x.registry()@, x.model(), x.parent_session_id()@, defs, model, session),
    }
}

/// A spawning tool holds the registry of the sub-agents, the agent's model and its session.
pub open spec fn spawner_given<T>(
    reg: Seq<Arc<SubAgentDef<T>>>,
    m: Model,
    parent: Seq<char>,
    defs: Seq<Arc<SubAgentDef<T>>>,
    model: Model,
    session: Seq<char>,
) -> bool {
    &&& names_sorted(reg)
    &&& forall|n: Seq<char>| #[trigger] find_def(reg, n) == registered(defs, n)
    &&& same_model(m, model)
    &&& parent == session
}

/// `spawner[k][j]` is given for every tool `j` of every skill `k`.
pub open spec fn flags_fit<T>(skills: Seq<Arc<Skill<T>>>, spawner: Seq<Seq<bool>>) -> bool {
    &&& spawner.len() == skills.len()
    &&& forall|k: int| 0 <= k < skills.len() ==> #[trigger] spawner[k].len() == skills[k].tools@.len()
}

impl<T, B, A> AgentContextBuilder<T, B, A> {
    /// A builder for a main agent with this prompt and model: no skills, sub-agents or extra
    /// tools, at most 50 turns, tool calls run in parallel, no hooks, no session id yet.
    pub fn new(base_system_prompt: &str, model: Model) -> (r: Self)
        ensures
            r@.session_id is None,
            r@.base_system_prompt == base_system_prompt@,
            r@.model == model,
            r@.skills.len() == 0,
            r@.sub_agents.len() == 0,
            r@.extra_tools.len() == 0,
            !r@.is_subagent,
            r@.max_iterations == 50,
            r@.tool_execution == ToolExecutionMode::Parallel,
            r@.before_tool_call is None,
            r@.after_tool_call is None,
    {
        AgentContextBuilder {
            session_id: None,
            base_system_prompt: owned(base_system_prompt),
            model,
            skills: Vec::new(),
            sub_agents: Vec::new(),
            extra_tools: Vec::new(),
            is_subagent: false,
            max_iterations: 50,
            tool_execution: ToolExecutionMode::Parallel,
            before_tool_call: None,
            after_tool_call: None,
        }
    }

    /// The skills given so far, in order.
    pub fn skills(&self) -> (r: &Vec<Arc<Skill<T>>>)
        ensures
            r@ == self@.skills,
    {
        &self.skills
    }

    pub fn session_id(self, id: String) -> (r: Self)
        ensures
            r@ == (AgentContextBuilderV { session_id: Some(id@), ..self@ }),
    {
        let mut b = self;
        b.session_id = Some(id);
        b
    }

    pub fn skill(self, skill: Skill<T>) -> (r: Self)
        ensures
            r@ == (AgentContextBuilderV { skills: self@.skills.push(Arc::new(skill)), ..self@ }),
    {
        self.skill_arc(Arc::new(skill))
    }

    pub fn skill_arc(self, skill: Arc<Skill<T>>) -> (r: Self)
        ensures
            r@ == (AgentContextBuilderV { skills: self@.skills.push(skill), ..self@ }),
    {
        let mut b = self;
        b.skills.push(skill);
        b
    }

    pub fn sub_agent(self, def: SubAgentDef<T>) -> (r: Self)
        ensures
            r@ == (AgentContextBuilderV { sub_agents: self@.sub_agents.push(Arc::new(def)), ..self@ }),
    {
        self.sub_agent_arc(Arc::new(def))
    }

    pub fn sub_agent_arc(self, def: Arc<SubAgentDef<T>>) -> (r: Self)
        ensures
            r@ == (AgentContextBuilderV { sub_agents: self@.sub_agents.push(def), ..self@ }),
    {
        let mut b = self;
        b.sub_agents.push(def);
        b
    }

    pub fn tool(self, tool: T) -> (r: Self)
        ensures
            r@ == (AgentContextBuilderV { extra_tools: self@.extra_tools.push(tool), ..self@ }),
    {
        let mut b = self;
        b.extra_tools.push(tool);
        b
    }

    pub fn is_subagent(self, v: bool) -> (r: Self)
        ensures
            r@ == (AgentContextBuilderV { is_subagent: v, ..self@ }),
    {
        let mut b = self;
        b.is_subagent = v;
        b
    }

    pub fn max_iterations(self, n: usize) -> (r: Self)
        ensures
            r@ == (AgentContextBuilderV { max_iterations: n, ..self@ }),
    {
        let mut b = self;
        b.max_iterations = n;
        b
    }

    pub fn tool_execution(self, mode: ToolExecutionMode) -> (r: Self)
        ensures
            r@ == (AgentContextBuilderV { tool_execution: mode, ..self@ }),
    {
        let mut b = self;
        b.tool_execution = mode;
        b
    }

    pub fn before_tool_call(self, hook: B) -> (r: Self)
        ensures
            r@ == (AgentContextBuilderV { before_tool_call: Some(hook), ..self@ }),
    {
        let mut b = self;
        b.before_tool_call = Some(hook);
        b
    }

    pub fn after_tool_call(self, hook: A) -> (r: Self)
        ensures
            r@ == (AgentContextBuilderV { after_tool_call: Some(hook), ..self@ }),
    {
        let mut b = self;
        b.after_tool_call = Some(hook);
        b
    }
}

impl<T: Clone, B, A> AgentContextBuilder<T, B, A> {
    /// Builds the context. The session id is the one given, else `fresh_session_id`.
    /// `spawner[k][j]` tells whether tool `j` of skill `k` starts agents. The system prompt
    /// is `system_prompt_text`; the tools stand as `lineup` places them: a new todo list,
    /// JSON validation, the extra tools, the skills' tools (for a sub-agent, without those
    /// that start agents), and for a main agent the two spawning tools, which share the
    /// registry of the sub-agents and get the model and the session id.
    pub fn build(self, fresh_session_id: String, spawner: &Vec<Vec<bool>>) -> (r: AgentContext<T, B, A>)
        requires
            flags_fit(self@.skills, spawner@.map_values(|v: Vec<bool>| v@)),
        ensures
            r.session_id@ == match self@.session_id {
                Some(s) => s,
                None => fresh_session_id@,
            },
            r.system_prompt@ == system_prompt_text(self@.is_subagent, self@.skills, self@.sub_agents, self@.base_system_prompt),
            r.messages@.len() == 0,
            r.tools@.len() == lineup(self@.is_subagent, self@.extra_tools.len(), spawner@.map_values(|v: Vec<bool>| v@)).len(),
            forall|i: int| 0 <= i < r.tools@.len() ==> tool_at(
                #[trigger] r.tools@[i],
                lineup(self@.is_subagent, self@.extra_tools.len(), spawner@.map_values(|v: Vec<bool>| v@))[i],
                self@.extra_tools,
                self@.skills,
                self@.sub_agents,
                self@.model,
                r.session_id@,
            ),
            r.model == self@.model,
            r.is_subagent == self@.is_subagent,
            r.max_iterations == self@.max_iterations,
            r.tool_execution == self@.tool_execution,
            r.before_tool_call == self@.before_tool_call,
            r.after_tool_call == self@.after_tool_call,
    {
        let ghost sv = spawner@.map_values(|v: Vec<bool>| v@);
        let ghost me = self@;
        let ghost lu = lineup(me.is_subagent, me.extra_tools.len(), sv);
        let session_id = match self.session_id {
            Some(s) => s,
            None => fresh_session_id,
        };
        let system_prompt = compose_system_prompt(
            self.is_subagent,
            &self.skills,
            &self.sub_agents,
            self.base_system_prompt.as_str(),
        );
        let registry = Arc::new(registry_of(&self.sub_agents));
        let mut tools: Vec<ContextTool<T>> = Vec::new();
        tools.push(ContextTool::Todo(TodoTool::new()));
        tools.push(ContextTool::JsonValidate(JsonValidateTool));
        let ghost head = seq![ToolSlot::Todo, ToolSlot::JsonValidate];
        // the extra tools, in order
        let mut extra = self.extra_tools;
        let ghost ev = extra@;
        let n = extra.len();
        let mut i: usize = 0;
        while i < n
            invariant
                head == seq![ToolSlot::Todo, ToolSlot::JsonValidate],
                n == ev.len(),
                i <= n,
                extra@ == ev.subrange(i as int, n as int),
                tools@.len() == 2 + i,
                forall|j: int| 0 <= j < tools@.len() ==> tool_at(#[trigger] tools@[j],
                    (head + Seq::new(i as nat, |k: int| ToolSlot::Extra(k as usize)))[j],
                    ev, me.skills, me.sub_agents, me.model, session_id@),
            decreases n - i,
        {
            let t = extra.remove(0);
            assert(t == ev[i as int]);
            let ghost old_tools = tools@;
            tools.push(ContextTool::Custom(t));
            assert(extra@ =~= ev.subrange(i + 1, n as int));
            let ghost prev = head + Seq::new(i as nat, |k: int| ToolSlot::Extra(k as usize));
            let ghost next = head + Seq::new((i + 1) as nat, |k: int| ToolSlot::Extra(k as usize));
            assert(next =~= prev.push(ToolSlot::Extra(i)));
            assert forall|j: int| 0 <= j < tools@.len() implies tool_at(#[trigger] tools@[j], next[j],
                ev, me.skills, me.sub_agents, me.model, session_id@) by {
                if j < old_tools.len() {
                    assert(tools@[j] == old_tools[j]);
                    assert(next[j] == prev[j]);
                }
            }
            i = i + 1;
        }
        let ghost base = head + Seq::new(n as nat, |k: int| ToolSlot::Extra(k as usize));
        // the skills' tools
        let mut k: usize = 0;
        while k < spawner.len()
            invariant
                k <= spawner@.len(),
                base == seq![ToolSlot::Todo, ToolSlot::JsonValidate] + Seq::new(ev.len(), |k: int| ToolSlot::Extra(k as usize)),
                sv == spawner@.map_values(|v: Vec<bool>| v@),
                flags_fit(me.skills, sv),
                me.skills == self.skills@,
                me.is_subagent == self.is_subagent,
                tools@.len() == (base + all_skill_slots(sv.take(k as int), me.is_subagent)).len(),
                forall|j: int| 0 <= j < tools@.len() ==> tool_at(#[trigger] tools@[j],
                    (base + all_skill_slots(sv.take(k as int), me.is_subagent))[j],
                    ev, me.skills, me.sub_agents, me.model, session_id@),
            decreases spawner@.len() - k,
        {
            let flags = &spawner[k];
            let ghost before = base + all_skill_slots(sv.take(k as int), me.is_subagent);
            assert(flags@ == sv[k as int]);
            assert(flags@.len() == self.skills@[k as int].tools@.len());
            let mut j: usize = 0;
            assert(flags@.take(0) =~= Seq::<bool>::empty());
            assert(before + skill_slots(k, flags@.take(0), me.is_subagent) =~= before);
            while j < flags.len()
                invariant
                    j <= flags@.len(),
                    k < self.skills@.len(),
                    flags@.len() == self.skills@[k as int].tools@.len(),
                    me.skills == self.skills@,
                    me.is_subagent == self.is_subagent,
                    tools@.len() == (before + skill_slots(k, flags@.take(j as int), me.is_subagent)).len(),
                    forall|m: int| 0 <= m < tools@.len() ==> tool_at(#[trigger] tools@[m],
                        (before + skill_slots(k, flags@.take(j as int), me.is_subagent))[m],
                        ev, me.skills, me.sub_agents, me.model, session_id@),
                decreases flags@.len() - j,
            {
                let ghost prev = before + skill_slots(k, flags@.take(j as int), me.is_subagent);
                assert(flags@.take(j + 1).drop_last() =~= flags@.take(j as int));
                assert(flags@.take(j + 1).last() == flags@[j as int]);
                if !(self.is_subagent && flags[j]) {
                    let t = self.skills[k].tools[j].clone();
                    let ghost old_tools = tools@;
                    tools.push(ContextTool::Custom(t));
                    let ghost next = before + skill_slots(k, flags@.take(j + 1), me.is_subagent);
                    assert(next =~= prev.push(ToolSlot::SkillTool { skill: k, tool: j }));
                    assert forall|m: int| 0 <= m < tools@.len() implies tool_at(#[trigger] tools@[m], next[m],
                        ev, me.skills, me.sub_agents, me.model, session_id@) by {
                        if m < old_tools.len() {
                            assert(tools@[m] == old_tools[m]);
                            assert(next[m] == prev[m]);
                        }
                    }
                } else {
                    assert(before + skill_slots(k, flags@.take(j + 1), me.is_subagent) =~= prev);
                }
                j = j + 1;
            }
            assert(flags@.take(flags@.len() as int) =~= flags@);
            assert(sv.take(k + 1).drop_last() =~= sv.take(k as int));
            assert(sv.take(k + 1).last() == sv[k as int]);
            assert(base + all_skill_slots(sv.take(k + 1), me.is_subagent)
                =~= before + skill_slots(k, flags@, me.is_subagent));
            k = k + 1;
        }
        assert(sv.take(spawner@.len() as int) =~= sv);
        if !self.is_subagent {
            let ghost prev = base + all_skill_slots(sv, me.is_subagent);
            tools.push(ContextTool::SpawnSubAgent(
                SpawnSubAgentTool::new(registry.clone(), self.model.clone(), session_id.clone()),
            ));
            tools.push(ContextTool::ParallelSubAgent(
                ParallelSubAgentTool::new(registry.clone(), self.model.clone(), session_id.clone()),
            ));
            assert(lu =~= prev.push(ToolSlot::SpawnSubAgent).push(ToolSlot::ParallelSubAgent));
        } else {
            assert(lu =~= base + all_skill_slots(sv, me.is_subagent));
        }
        AgentContext {
            session_id,
            system_prompt,
            messages: Vec::new(),
            tools,
            model: self.model,
            is_subagent: self.is_subagent,
            max_iterations: self.max_iterations,
            tool_execution: self.tool_execution,
            before_tool_call: self.before_tool_call,
            after_tool_call: self.after_tool_call,
        }
    }
}

} // verus!
