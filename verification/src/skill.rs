//! Skills: named bundles of instructions and tools, their registry, and the reading of a
//! skill from a markdown file with a YAML frontmatter.
use vstd::prelude::*;
use std::sync::Arc;
use vstd::utf8::encode_utf8;
use crate::text::{
    owned, str_eq, chars_of, string_of, string_of_range, find_from, trim, trim_spec, decimal,
    seq_join, join_strings, strings_view, starts_with, first_occurrence_from, occurs_at,
};
use crate::types::opt_string_view;
use crate::text::{utf8_len, decimal_u128};

verus! {

/// A reusable capability: instructions for the system prompt and the tools that go with them.
/// `T` is how the caller holds a tool.
pub struct Skill<T> {
    pub name: String,
    pub description: String,
    /// Paragraphs added to the system prompt.
    pub instructions: Vec<String>,
    pub tools: Vec<T>,
}

/// `- name : description`, for the parent agent's prompt.
pub open spec fn summary_text(name: Seq<char>, description: Seq<char>) -> Seq<char> {
    "- "@ + name + " : "@ + description
}

/// The instructions section of a skill: nothing without instructions, else a blank line,
/// `## Skill: name`, one `- instruction` line each, and a final newline.
pub open spec fn instructions_text(name: Seq<char>, instructions: Seq<Seq<char>>) -> Seq<char> {
    if instructions.len() == 0 {
        Seq::empty()
    } else {
        "\n\n"@ + seq_join(
            seq!["## Skill: "@ + name] + instructions.map_values(|i: Seq<char>| "- "@ + i),
            "\n"@,
        ) + "\n"@
    }
}

impl<T> Skill<T> {
    /// A skill with no instructions and no tools.
    pub fn new(name: &str, description: &str) -> (r: Self)
        ensures
            r.name@ == name@,
            r.description@ == description@,
            r.instructions@.len() == 0,
            r.tools@.len() == 0,
    {
        Skill { name: owned(name), description: owned(description), instructions: Vec::new(), tools: Vec::new() }
    }

    pub fn with_instruction(self, instruction: &str) -> (r: Self)
        ensures
            r.name == self.name,
            r.description == self.description,
            strings_view(r.instructions@) == strings_view(self.instructions@).push(instruction@),
            r.tools == self.tools,
    {
        let mut s = self;
        let ghost before = strings_view(s.instructions@);
        s.instructions.push(owned(instruction));
        assert(strings_view(s.instructions@) =~= before.push(instruction@));
        s
    }

    pub fn with_tool(self, tool: T) -> (r: Self)
        ensures
            r.name == self.name,
            r.description == self.description,
            r.instructions == self.instructions,
            r.tools@ == self.tools@.push(tool),
    {
        let mut s = self;
        s.tools.push(tool);
        s
    }

    /// `- name : description`.
    pub fn to_summary_section(&self) -> (r: String)
        ensures
            r@ == summary_text(self.name@, self.description@),
    {
        let mut s = owned("- ");
        s.append(self.name.as_str());
        s.append(" : ");
        s.append(self.description.as_str());
        s
    }

    /// The section of the sub-agent's prompt with the full instructions.
    pub fn to_instructions_section(&self) -> (r: String)
        ensures
            r@ == instructions_text(self.name@, strings_view(self.instructions@)),
    {
        if self.instructions.len() == 0 {
            return String::new();
        }
        let ghost iv = strings_view(self.instructions@);
        let mut lines: Vec<String> = Vec::new();
        let mut head = owned("## Skill: ");
        head.append(self.name.as_str());
        lines.push(head);
        let ghost first = seq!["## Skill: "@ + self.name@];
        assert(strings_view(lines@) =~= first + iv.take(0).map_values(|i: Seq<char>| "- "@ + i));
        let mut k: usize = 0;
        while k < self.instructions.len()
            invariant
                k <= self.instructions@.len(),
                iv == strings_view(self.instructions@),
                strings_view(lines@) == first + iv.take(k as int).map_values(|i: Seq<char>| "- "@ + i),
            decreases self.instructions@.len() - k,
        {
            let ghost prev = strings_view(lines@);
            let mut l = owned("- ");
            l.append(self.instructions[k].as_str());
            lines.push(l);
            assert(strings_view(lines@) =~= prev.push("- "@ + iv[k as int]));
            assert(iv.take(k + 1).map_values(|i: Seq<char>| "- "@ + i)
                =~= iv.take(k as int).map_values(|i: Seq<char>| "- "@ + i).push("- "@ + iv[k as int]));
            assert(first + iv.take(k + 1).map_values(|i: Seq<char>| "- "@ + i)
                =~= (first + iv.take(k as int).map_values(|i: Seq<char>| "- "@ + i)).push("- "@ + iv[k as int]));
            k = k + 1;
        }
        assert(iv.take(self.instructions@.len() as int) =~= iv);
        let mut s = owned("\n\n");
        s.append(join_strings(&lines, "\n").as_str());
        s.append("\n");
        s
    }
}

// ---------------------------------------------------------------------------
// SkillRegistry
// ---------------------------------------------------------------------------

/// The skill registered under `name`: the first entry with that name.
pub open spec fn find_skill<T>(entries: Seq<Arc<Skill<T>>>, name: Seq<char>) -> Option<Arc<Skill<T>>>
    decreases entries.len(),
{
    if entries.len() == 0 {
        None
    } else if entries[0].name@ == name {
        Some(entries[0])
    } else {
        find_skill(entries.drop_first(), name)
    }
}

/// Skills by name. Registering a name again replaces the skill held under it.
pub struct SkillRegistry<T> {
    skills: Vec<Arc<Skill<T>>>,
}

/// No two skills share a name.
pub open spec fn names_unique<T>(s: Seq<Arc<Skill<T>>>) -> bool {
    forall|i: int, j: int| 0 <= i < s.len() && 0 <= j < s.len() && i != j ==> s[i].name@ != s[j].name@
}

impl<T> SkillRegistry<T> {
    #[verifier::type_invariant]
    spec fn unique(self) -> bool {
        names_unique(self.skills@)
    }

    /// The skill held under `name`.
    pub closed spec fn lookup(&self, name: Seq<char>) -> Option<Arc<Skill<T>>> {
        find_skill(self.skills@, name)
    }

    /// The names held.
    pub closed spec fn name_set(&self) -> Set<Seq<char>> {
        Set::new(|n: Seq<char>| find_skill(self.skills@, n) is Some)
    }

    /// An empty registry.
    pub fn new() -> (r: Self)
        ensures
            forall|n: Seq<char>| r.lookup(n) is None,
    {
        SkillRegistry { skills: Vec::new() }
    }

    /// Registers a skill under its name.
    pub fn register(&mut self, skill: Skill<T>)
        ensures
            forall|n: Seq<char>| #[trigger] final(self).lookup(n) == if n == skill.name@ {
                Some(Arc::new(skill))
            } else {
                old(self).lookup(n)
            },
    {
        let a = Arc::new(skill);
        self.register_arc(a);
    }

    /// Registers a shared skill under its name.
    pub fn register_arc(&mut self, skill: Arc<Skill<T>>)
        ensures
            forall|n: Seq<char>| #[trigger] final(self).lookup(n) == if n == skill.name@ {
                Some(skill)
            } else {
                old(self).lookup(n)
            },
    {
        proof { use_type_invariant(&*self); }
        let ghost before = self.skills@;
        let mut skills: Vec<Arc<Skill<T>>> = Vec::new();
        std::mem::swap(&mut skills, &mut self.skills);
        let mut i: usize = 0;
        while i < skills.len()
            invariant
                skills@ == before,
                before == old(self).skills@,
                names_unique(before),
                i <= before.len(),
                forall|m: int| 0 <= m < i ==> before[m].name@ != skill.name@,
            decreases before.len() - i,
        {
            if str_eq(skills[i].name.as_str(), skill.name.as_str()) {
                let ghost s2 = before.update(i as int, skill);
                let ghost sk = skill;
                assert(before[i as int].name@ == sk.name@);
                skills.set(i, skill);
                proof {
                    assert(skills@ =~= s2);
                    assert(names_unique(s2)) by {
                        assert forall|a: int, b: int| 0 <= a < s2.len() && 0 <= b < s2.len() && a != b implies
                            s2[a].name@ != s2[b].name@ by {
                            assert(s2[a].name@ == before[a].name@);
                            assert(s2[b].name@ == before[b].name@);
                        }
                    }
                }
                self.skills = skills;
                proof {
                    assert forall|n: Seq<char>| #[trigger] self.lookup(n) == if n == sk.name@ {
                        Some(sk)
                    } else {
                        old(self).lookup(n)
                    } by {
                        lemma_find_skill_update(before, i as int, sk, n);
                        assert(self.lookup(n) == find_skill(s2, n));
                        assert(old(self).lookup(n) == find_skill(before, n));
                        assert(find_skill(s2, n) == if n == sk.name@ { Some(sk) } else { find_skill(before, n) });
                    }
                }
                return;
            }
            i = i + 1;
        }
        skills.push(skill);
        proof {
            assert(names_unique(skills@)) by {
                assert forall|a: int, b: int| 0 <= a < skills@.len() && 0 <= b < skills@.len() && a != b implies
                    skills@[a].name@ != skills@[b].name@ by {
                    if a < before.len() {
                        assert(skills@[a] == before[a]);
                    }
                    if b < before.len() {
                        assert(skills@[b] == before[b]);
                    }
                }
            }
        }
        self.skills = skills;
        proof {
            assert forall|n: Seq<char>| #[trigger] self.lookup(n) == if n == skill.name@ {
                Some(skill)
            } else {
                old(self).lookup(n)
            } by {
                lemma_find_skill_push(before, skill, n);
            }
        }
    }

    /// The skill registered under `name`.
    pub fn get(&self, name: &str) -> (r: Option<Arc<Skill<T>>>)
        ensures
            r == self.lookup(name@),
    {
        let mut i: usize = 0;
        assert(self.skills@.subrange(0, self.skills@.len() as int) =~= self.skills@);
        while i < self.skills.len()
            invariant
                i <= self.skills@.len(),
                find_skill(self.skills@, name@) == find_skill(self.skills@.subrange(i as int, self.skills@.len() as int), name@),
            decreases self.skills@.len() - i,
        {
            proof {
                let rest = self.skills@.subrange(i as int, self.skills@.len() as int);
                assert(rest.drop_first() =~= self.skills@.subrange(i + 1, self.skills@.len() as int));
                assert(rest[0] == self.skills@[i as int]);
            }
            if str_eq(self.skills[i].name.as_str(), name) {
                return Some(self.skills[i].clone());
            }
            i = i + 1;
        }
        None
    }

    /// The skills registered under the given names, in the order of the names; unknown
    /// names are skipped.
    pub fn get_many(&self, names: &Vec<String>) -> (r: Vec<Arc<Skill<T>>>)
        ensures
            r@ == found_skills(self, strings_view(names@)),
    {
        let mut out: Vec<Arc<Skill<T>>> = Vec::new();
        let mut i: usize = 0;
        while i < names.len()
            invariant
                i <= names@.len(),
                out@ == found_skills(self, strings_view(names@).take(i as int)),
            decreases names@.len() - i,
        {
            assert(strings_view(names@).take(i + 1).drop_last() =~= strings_view(names@).take(i as int));
            match self.get(names[i].as_str()) {
                Some(s) => {
                    out.push(s);
                },
                None => {},
            }
            i = i + 1;
        }
        assert(strings_view(names@).take(names@.len() as int) =~= strings_view(names@));
        out
    }

    /// The registered names (each once, in order of first registration).
    pub fn names(&self) -> (r: Vec<&str>)
        ensures
            forall|n: Seq<char>| self.name_set().contains(n) <==> exists|i: int| 0 <= i < r@.len() && (#[trigger] r@[i])@ == n,
            forall|i: int, j: int| 0 <= i < r@.len() && 0 <= j < r@.len() && i != j ==> (#[trigger] r@[i])@ != (#[trigger] r@[j])@,
    {
        proof { use_type_invariant(self); }
        let mut out: Vec<&str> = Vec::new();
        let mut i: usize = 0;
        while i < self.skills.len()
            invariant
                i <= self.skills@.len(),
                out@.len() == i,
                forall|k: int| 0 <= k < i ==> (#[trigger] out@[k])@ == self.skills@[k].name@,
            decreases self.skills@.len() - i,
        {
            out.push(self.skills[i].name.as_str());
            i = i + 1;
        }
        proof {
            assert forall|n: Seq<char>| self.name_set().contains(n) <==> exists|i: int| 0 <= i < out@.len() && (#[trigger] out@[i])@ == n by {
                lemma_find_skill_some(self.skills@, n);
                assert(self.name_set().contains(n) == (find_skill(self.skills@, n) is Some));
                if exists|i: int| 0 <= i < out@.len() && (#[trigger] out@[i])@ == n {
                    let i = choose|i: int| 0 <= i < out@.len() && (#[trigger] out@[i])@ == n;
                    assert(self.skills@[i].name@ == n);
                }
                if find_skill(self.skills@, n) is Some {
                    let i = choose|i: int| 0 <= i < self.skills@.len() && self.skills@[i].name@ == n;
                    assert(out@[i]@ == n);
                }
            }
        }
        out
    }
}

impl<T> Default for SkillRegistry<T> {
    /// An empty registry.
    fn default() -> (r: Self)
        ensures
            forall|n: Seq<char>| r.lookup(n) is None,
    {
        SkillRegistry::new()
    }
}

impl<T> Clone for SkillRegistry<T> {
    /// A registry sharing the same skills.
    fn clone(&self) -> (r: Self)
        ensures
            forall|n: Seq<char>| #[trigger] r.lookup(n) == self.lookup(n),
    {
        proof { use_type_invariant(self); }
        let mut skills: Vec<Arc<Skill<T>>> = Vec::new();
        let mut i: usize = 0;
        while i < self.skills.len()
            invariant
                i <= self.skills@.len(),
                skills@ == self.skills@.take(i as int),
            decreases self.skills@.len() - i,
        {
            skills.push(self.skills[i].clone());
            assert(skills@ =~= self.skills@.take(i + 1));
            i = i + 1;
        }
        assert(self.skills@.take(self.skills@.len() as int) =~= self.skills@);
        SkillRegistry { skills }
    }
}

/// The skills found for the names, in order, the unknown names skipped.
pub open spec fn found_skills<T>(reg: &SkillRegistry<T>, names: Seq<Seq<char>>) -> Seq<Arc<Skill<T>>>
    decreases names.len(),
{
    if names.len() == 0 {
        Seq::empty()
    } else {
        found_skills(reg, names.drop_last()) + match reg.lookup(names.last()) {
            Some(s) => seq![s],
            None => Seq::empty(),
        }
    }
}

proof fn lemma_find_skill_some<T>(s: Seq<Arc<Skill<T>>>, n: Seq<char>)
    ensures
        find_skill(s, n) is Some <==> exists|i: int| 0 <= i < s.len() && s[i].name@ == n,
        find_skill(s, n) matches Some(x) ==> x.name@ == n,
    decreases s.len(),
{
    if s.len() > 0 {
        lemma_find_skill_some(s.drop_first(), n);
        if exists|i: int| 0 <= i < s.len() && s[i].name@ == n {
            let i = choose|i: int| 0 <= i < s.len() && s[i].name@ == n;
            if i > 0 {
                assert(s.drop_first()[i - 1] == s[i]);
            }
        }
        if exists|i: int| 0 <= i < s.drop_first().len() && s.drop_first()[i].name@ == n {
            let i = choose|i: int| 0 <= i < s.drop_first().len() && s.drop_first()[i].name@ == n;
            assert(s[i + 1] == s.drop_first()[i]);
        }
    }
}

proof fn lemma_find_skill_update<T>(s: Seq<Arc<Skill<T>>>, i: int, x: Arc<Skill<T>>, n: Seq<char>)
    requires
        0 <= i < s.len(),
        s[i].name@ == x.name@,
        forall|m: int| 0 <= m < i ==> s[m].name@ != x.name@,
    ensures
        find_skill(s.update(i, x), n) == if n == x.name@ { Some(x) } else { find_skill(s, n) },
    decreases i,
{
    let t = s.update(i, x);
    assert(t[0] == if i == 0 { x } else { s[0] });
    if i == 0 {
        assert(t.drop_first() =~= s.drop_first());
    } else {
        lemma_find_skill_update(s.drop_first(), i - 1, x, n);
        assert(t.drop_first() =~= s.drop_first().update(i - 1, x));
        assert(s[0].name@ != x.name@);
    }
}

proof fn lemma_find_skill_push<T>(s: Seq<Arc<Skill<T>>>, x: Arc<Skill<T>>, n: Seq<char>)
    requires
        forall|m: int| 0 <= m < s.len() ==> s[m].name@ != x.name@,
    ensures
        find_skill(s.push(x), n) == if n == x.name@ { Some(x) } else { find_skill(s, n) },
    decreases s.len(),
{
    if s.len() == 0 {
        assert(s.push(x).drop_first() =~= Seq::<Arc<Skill<T>>>::empty());
        assert(s.push(x)[0] == x);
        assert(find_skill(s.push(x).drop_first(), n) is None);
        assert(find_skill(s, n) is None);
    } else {
        lemma_find_skill_push(s.drop_first(), x, n);
        assert(s.push(x).drop_first() =~= s.drop_first().push(x));
        assert(s.push(x)[0] == s[0]);
        assert(s[0].name@ != x.name@);
    }
}

} // verus!

verus! {

// ---------------------------------------------------------------------------
// Markdown loading
// ---------------------------------------------------------------------------

/// Line breaks made uniform: each `\r\n` becomes `\n`, then each remaining `\r` becomes `\n`.
pub open spec fn normalize_newlines(s: Seq<char>) -> Seq<char>
    decreases s.len(),
{
    if s.len() == 0 {
        Seq::empty()
    } else if s[0] == '\r' && s.len() > 1 && s[1] == '\n' {
        seq!['\n'] + normalize_newlines(s.subrange(2, s.len() as int))
    } else if s[0] == '\r' {
        seq!['\n'] + normalize_newlines(s.drop_first())
    } else {
        seq![s[0]] + normalize_newlines(s.drop_first())
    }
}

/// Where the frontmatter closes: the first `\n---` after the opening `---`.
pub open spec fn frontmatter_end(c: Seq<char>) -> Option<int> {
    if starts_with(c, "---"@) {
        first_occurrence_from(c, "\n---"@, 3)
    } else {
        None
    }
}

/// The frontmatter text and the trimmed body of normalized content: without a
/// frontmatter block the whole content is the body.
pub open spec fn frontmatter_split(c: Seq<char>) -> (Option<Seq<char>>, Seq<char>) {
    match frontmatter_end(c) {
        None => (None, c),
        Some(p) => (Some(c.subrange(4, p)), trim_spec(c.subrange(p + 4, c.len() as int))),
    }
}

/// The content can be split without slicing inside a character: the closing `\n---`
/// does not start right after the opening `---`, and the character after `---` is ASCII.
pub open spec fn frontmatter_splittable(content: Seq<char>) -> bool {
    let c = normalize_newlines(content);
    match frontmatter_end(c) {
        None => true,
        Some(p) => p >= 4 && (c[3] as u32) < 0x80,
    }
}

fn normalize_exec(cs: &Vec<char>) -> (r: Vec<char>)
    ensures
        r@ == normalize_newlines(cs@),
{
    let mut out: Vec<char> = Vec::new();
    let mut i: usize = 0;
    assert(cs@.subrange(0, cs@.len() as int) =~= cs@);
    while i < cs.len()
        invariant
            i <= cs@.len(),
            out@ + normalize_newlines(cs@.subrange(i as int, cs@.len() as int)) == normalize_newlines(cs@),
        decreases cs@.len() - i,
    {
        let ghost rest = cs@.subrange(i as int, cs@.len() as int);
        if cs[i] == '\r' && i + 1 < cs.len() && cs[i + 1] == '\n' {
            assert(rest.subrange(2, rest.len() as int) =~= cs@.subrange(i + 2, cs@.len() as int));
            out.push('\n');
            assert(out@ + normalize_newlines(cs@.subrange(i + 2, cs@.len() as int)) =~= normalize_newlines(cs@));
            i = i + 2;
        } else {
            assert(rest.drop_first() =~= cs@.subrange(i + 1, cs@.len() as int));
            if cs[i] == '\r' {
                out.push('\n');
            } else {
                out.push(cs[i]);
            }
            assert(out@ + normalize_newlines(cs@.subrange(i + 1, cs@.len() as int)) =~= normalize_newlines(cs@));
            i = i + 1;
        }
    }
    assert(out@ + Seq::<char>::empty() =~= out@);
    out
}

/// Whether `parse_frontmatter` can split `content` (see `frontmatter_splittable`).
pub fn can_split_frontmatter(content: &str) -> (r: bool)
    ensures
        r == frontmatter_splittable(content@),
{
    let raw = chars_of(content);
    let c = normalize_exec(&raw);
    let dashes = chars_of("---");
    let closing = chars_of("\n---");
    if !crate::text::matches_at(&c, &dashes, 0) {
        return true;
    }
    match find_from(&c, &closing, 3) {
        None => true,
        Some(p) => {
            proof {
                crate::text::lemma_first_occurrence_props(c@, closing@, 3);
                reveal_strlit("\n---");
                reveal_strlit("---");
                assert(frontmatter_end(c@) == Some(p as int));
            }
            p >= 4 && (c[3] as u32) < 0x80
        },
    }
}

/// Splits skill markdown into the frontmatter text (between the opening `---` and the next
/// `\n---`) and the trimmed body, after making line breaks uniform.
pub fn parse_frontmatter(content: &str) -> (r: (Option<String>, String))
    requires
        frontmatter_splittable(content@),
    ensures
        match r.0 {
            Some(y) => frontmatter_split(normalize_newlines(content@)).0 == Some(y@),
            None => frontmatter_split(normalize_newlines(content@)).0 is None,
        },
        r.1@ == frontmatter_split(normalize_newlines(content@)).1,
{
    let raw = chars_of(content);
    let c = normalize_exec(&raw);
    let dashes = chars_of("---");
    let closing = chars_of("\n---");
    if !crate::text::matches_at(&c, &dashes, 0) {
        return (None, string_of(&c));
    }
    match find_from(&c, &closing, 3) {
        None => (None, string_of(&c)),
        Some(p) => {
            proof {
                crate::text::lemma_first_occurrence_props(c@, closing@, 3);
                reveal_strlit("\n---");
                reveal_strlit("---");
                assert(frontmatter_end(c@) == Some(p as int));
            }
            let yaml = string_of_range(&c, 4, p);
            let rest = string_of_range(&c, p + 4, c.len());
            let body = trim(rest.as_str());
            (Some(yaml), body)
        },
    }
}

/// A character allowed in a skill name: a lowercase ASCII letter, a digit, `-` or `_`.
pub open spec fn name_char(c: char) -> bool {
    ('a' <= c && c <= 'z') || ('0' <= c && c <= '9') || c == '-' || c == '_'
}

/// The verdict on a skill name, with the message of the first rule it breaks.
pub open spec fn name_verdict(n: Seq<char>) -> Result<(), Seq<char>> {
    if encode_utf8(n).len() > 64 {
        Err("name exceeds 64 characters ("@ + decimal(encode_utf8(n).len()) + ")"@)
    } else if !(forall|i: int| 0 <= i < n.len() ==> name_char(#[trigger] n[i])) {
        Err("name must contain only lowercase letters, digits, hyphens, and underscores"@)
    } else if (n.len() > 0 && n[0] == '-') || (n.len() > 0 && n.last() == '-') {
        Err("name must not start or end with a hyphen"@)
    } else if exists|i: int| occurs_at(n, "--"@, i) {
        Err("name must not contain consecutive hyphens"@)
    } else {
        Ok(())
    }
}

/// Checks a skill name: at most 64 bytes; only lowercase letters, digits, `-` and `_`;
/// no `-` at either end; no `--`.
pub fn validate_name(name: &str) -> (r: Result<(), String>)
    ensures
        match r {
            Ok(()) => name_verdict(name@) == Ok::<(), Seq<char>>(()),
            Err(e) => name_verdict(name@) == Err::<(), Seq<char>>(e@),
        },
{
    let len = utf8_len(name);
    if len > 64 {
        let mut m = owned("name exceeds 64 characters (");
        m.append(decimal_u128(len).as_str());
        m.append(")");
        return Err(m);
    }
    let n = chars_of(name);
    let mut i: usize = 0;
    while i < n.len()
        invariant
            n@ == name@,
            i <= n@.len(),
            forall|k: int| 0 <= k < i ==> name_char(#[trigger] n@[k]),
            encode_utf8(name@).len() <= 64,
        decreases n@.len() - i,
    {
        let c = n[i];
        if !(('a' <= c && c <= 'z') || ('0' <= c && c <= '9') || c == '-' || c == '_') {
            assert(!name_char(n@[i as int]));
            return Err(owned("name must contain only lowercase letters, digits, hyphens, and underscores"));
        }
        i = i + 1;
    }
    assert(encode_utf8(name@).len() <= 64);
    let k = n.len();
    if (k > 0 && n[0] == '-') || (k > 0 && n[k - 1] == '-') {
        return Err(owned("name must not start or end with a hyphen"));
    }
    let dd = chars_of("--");
    match find_from(&n, &dd, 0) {
        Some(p) => {
            proof {
                crate::text::lemma_first_occurrence_props(n@, dd@, 0);
            }
            Err(owned("name must not contain consecutive hyphens"))
        },
        None => {
            proof {
                crate::text::lemma_first_occurrence_props(n@, dd@, 0);
                assert forall|i: int| !occurs_at(n@, "--"@, i) by {
                    if i < 0 {
                    }
                }
            }
            Ok(())
        },
    }
}

/// The frontmatter fields of a skill file.
pub struct SkillFrontmatter {
    pub name: Option<String>,
    pub description: Option<String>,
    pub allowed_tools: Vec<String>,
}

/// A skill read from markdown, with the names of the tools its frontmatter asks for;
/// the caller looks those up and binds them.
pub struct SkillDef<T> {
    pub skill: Skill<T>,
    pub allowed_tools: Vec<String>,
}

/// The frontmatter as read, in plain values: nothing where the file has none, the
/// reader's message where it was not valid YAML, else the name and description it gives.
pub open spec fn frontmatter_view(fm: Option<Result<SkillFrontmatter, String>>) -> Option<
    Result<(Option<Seq<char>>, Option<Seq<char>>), Seq<char>>,
> {
    match fm {
        Some(Ok(f)) => Some(Ok((opt_string_view(f.name), opt_string_view(f.description)))),
        Some(Err(e)) => Some(Err(e@)),
        None => None,
    }
}

/// The tool names a frontmatter asks for (none where there is no frontmatter).
pub open spec fn frontmatter_tools(fm: Option<Result<SkillFrontmatter, String>>) -> Seq<Seq<char>> {
    match fm {
        Some(Ok(f)) => strings_view(f.allowed_tools@),
        _ => Seq::empty(),
    }
}

/// The outcome of reading a skill whose frontmatter was read as `fm` (see
/// `frontmatter_view`), with `body` (already trimmed), the name to use where the
/// frontmatter gives none, and the path for messages: the name, description and
/// instructions of the skill, or the error message.
pub open spec fn skill_verdict(
    fm: Option<Result<(Option<Seq<char>>, Option<Seq<char>>), Seq<char>>>,
    body: Seq<char>,
    default_name: Seq<char>,
    path: Seq<char>,
) -> Result<(Seq<char>, Seq<char>, Seq<Seq<char>>), Seq<char>> {
    match fm {
        Some(Err(e)) => Err("invalid frontmatter in "@ + path + ": "@ + e),
        _ => {
            let (name, desc) = match fm {
                Some(Ok((n, d))) => (n, d),
                _ => (None, None),
            };
            let name = match name {
                Some(n) => n,
                None => default_name,
            };
            match name_verdict(name) {
                Err(e) => Err(path + ": "@ + e),
                Ok(()) => match desc {
                    Some(d) => if trim_spec(d).len() == 0 {
                        Err(path + ": description is required"@)
                    } else if encode_utf8(d).len() > 1024 {
                        Err(path + ": description exceeds 1024 characters"@)
                    } else {
                        Ok((name, d, if body.len() == 0 { Seq::empty() } else { seq![body] }))
                    },
                    None => Err(path + ": description is required"@),
                },
            }
        },
    }
}

/// Builds a skill from a markdown file's parts: the frontmatter as read (`None` where the
/// file has none; `Some(Err(message))` where it is not valid YAML), the trimmed body, the
/// default name (the file's or directory's name) and the path for messages. The name must
/// pass `validate_name`; a description that is not blank and at most 1024 bytes is
/// required; a non-empty body becomes the one instruction.
pub fn skill_from_frontmatter<T>(
    frontmatter: Option<Result<SkillFrontmatter, String>>,
    body: String,
    default_name: &str,
    path: &str,
) -> (r: Result<SkillDef<T>, String>)
    ensures
        match r {
            Ok(def) => skill_verdict(frontmatter_view(frontmatter), body@, default_name@, path@)
                == Ok::<(Seq<char>, Seq<char>, Seq<Seq<char>>), Seq<char>>((
                    def.skill.name@,
                    def.skill.description@,
                    strings_view(def.skill.instructions@),
                )) && def.skill.tools@.len() == 0
                && strings_view(def.allowed_tools@) == frontmatter_tools(frontmatter),
            Err(e) => skill_verdict(frontmatter_view(frontmatter), body@, default_name@, path@)
                == Err::<(Seq<char>, Seq<char>, Seq<Seq<char>>), Seq<char>>(e@),
        },
{
    let ghost fmv = frontmatter_view(frontmatter);
    let ghost verdict = skill_verdict(fmv, body@, default_name@, path@);
    let (name, description, allowed_tools) = match frontmatter {
        Some(Err(e)) => {
            let mut m = owned("invalid frontmatter in ");
            m.append(path);
            m.append(": ");
            m.append(e.as_str());
            return Err(m);
        },
        Some(Ok(f)) => (f.name, f.description, f.allowed_tools),
        None => (None, None, Vec::new()),
    };
    assert(fmv !is Some || fmv->0 is Ok);
    assert(strings_view(allowed_tools@) == frontmatter_tools(frontmatter));
    let name = match name {
        Some(n) => n,
        None => owned(default_name),
    };
    match validate_name(name.as_str()) {
        Err(e) => {
            let mut m = owned(path);
            m.append(": ");
            m.append(e.as_str());
            return Err(m);
        },
        Ok(()) => {},
    }
    let description = match description {
        Some(d) => d,
        None => {
            let mut m = owned(path);
            m.append(": description is required");
            return Err(m);
        },
    };
    if trim(description.as_str()).as_str().is_empty() {
        let mut m = owned(path);
        m.append(": description is required");
        return Err(m);
    }
    if utf8_len(description.as_str()) > 1024 {
        let mut m = owned(path);
        m.append(": description exceeds 1024 characters");
        return Err(m);
    }
    let mut skill: Skill<T> = Skill { name, description, instructions: Vec::new(), tools: Vec::new() };
    if !body.as_str().is_empty() {
        skill.instructions.push(body);
    }
    proof {
        assert(strings_view(skill.instructions@) =~= if body@.len() == 0 { Seq::<Seq<char>>::empty() } else { seq![body@] });
    }
    Ok(SkillDef { skill, allowed_tools })
}

} // verus!

verus! {

/// A skill name is accepted exactly when it takes at most 64 bytes, holds only lowercase
/// ASCII letters, digits, `-` and `_`, neither starts nor ends with `-`, and has no two
/// `-` side by side.
pub proof fn law_valid_skill_names(n: Seq<char>)
    ensures
        name_verdict(n) is Ok <==> {
            &&& encode_utf8(n).len() <= 64
            &&& forall|i: int| 0 <= i < n.len() ==> {
                let c = #[trigger] n[i];
                ('a' <= c && c <= 'z') || ('0' <= c && c <= '9') || c == '-' || c == '_'
            }
            &&& !(n.len() > 0 && n[0] == '-')
            &&& !(n.len() > 0 && n[n.len() - 1] == '-')
            &&& forall|i: int| 0 <= i < n.len() - 1 ==> !(#[trigger] n[i] == '-' && n[i + 1] == '-')
        },
{
    reveal_strlit("--");
    assert forall|i: int| occurs_at(n, "--"@, i) <==> (0 <= i < n.len() - 1 && n[i] == '-' && n[i + 1] == '-') by {
        if 0 <= i < n.len() - 1 && n[i] == '-' && n[i + 1] == '-' {
            assert(n.subrange(i, i + 2) =~= "--"@);
        }
        if occurs_at(n, "--"@, i) {
            assert(n.subrange(i, i + 2)[0] == n[i]);
            assert(n.subrange(i, i + 2)[1] == n[i + 1]);
        }
    }
    let chars_ok = forall|i: int| 0 <= i < n.len() ==> name_char(#[trigger] n[i]);
    let chars_ok2 = forall|i: int| 0 <= i < n.len() ==> {
        let c = #[trigger] n[i];
        ('a' <= c && c <= 'z') || ('0' <= c && c <= '9') || c == '-' || c == '_'
    };
    assert(chars_ok <==> chars_ok2);
    let ends = (n.len() > 0 && n[0] == '-') || (n.len() > 0 && n.last() == '-');
    let doubled = exists|i: int| occurs_at(n, "--"@, i);
    let doubled2 = !(forall|i: int| 0 <= i < n.len() - 1 ==> !(#[trigger] n[i] == '-' && n[i + 1] == '-'));
    if doubled {
        let i = choose|i: int| occurs_at(n, "--"@, i);
        assert(n[i] == '-' && n[i + 1] == '-');
        assert(doubled2);
    }
    if doubled2 {
        let i = choose|i: int| 0 <= i < n.len() - 1 && #[trigger] n[i] == '-' && n[i + 1] == '-';
        assert(occurs_at(n, "--"@, i));
        assert(doubled);
    }
    if encode_utf8(n).len() > 64 {
        assert(name_verdict(n) is Err);
    } else if !chars_ok {
        assert(name_verdict(n) is Err);
    } else if ends {
        assert(name_verdict(n) is Err);
    } else if doubled {
        assert(name_verdict(n) is Err);
    } else {
        assert(name_verdict(n) is Ok);
    }
}

} // verus!
