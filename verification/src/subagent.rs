//! Sub-agent definitions and the registry that spawning looks them up in.
use vstd::prelude::*;
use std::sync::Arc;
use crate::skill::Skill;
use crate::text::{
    owned, str_eq, str_lt, text_lt, strings_view, lemma_text_lt_irreflexive,
    lemma_text_lt_transitive, lemma_text_lt_total,
};

verus! {

/// A sub-agent declared ahead of time: its own system prompt (added after the built-in
/// sub-agent prompt), its skills and its extra tools. `T` is how the caller holds a tool.
pub struct SubAgentDef<T> {
    pub name: String,
    pub description: String,
    pub system_prompt: String,
    pub skills: Vec<Arc<Skill<T>>>,
    pub extra_tools: Vec<T>,
}

impl<T> SubAgentDef<T> {
    /// A definition with no skills and no extra tools.
    pub fn new(name: &str, description: &str, system_prompt: &str) -> (r: Self)
        ensures
            r.name@ == name@,
            r.description@ == description@,
            r.system_prompt@ == system_prompt@,
            r.skills@.len() == 0,
            r.extra_tools@.len() == 0,
    {
        SubAgentDef {
            name: owned(name),
            description: owned(description),
            system_prompt: owned(system_prompt),
            skills: Vec::new(),
            extra_tools: Vec::new(),
        }
    }

    pub fn with_skill(self, skill: Skill<T>) -> (r: Self)
        ensures
            r.name == self.name,
            r.description == self.description,
            r.system_prompt == self.system_prompt,
            r.skills@ == self.skills@.push(Arc::new(skill)),
            r.extra_tools == self.extra_tools,
    {
        self.with_skill_arc(Arc::new(skill))
    }

    pub fn with_skill_arc(self, skill: Arc<Skill<T>>) -> (r: Self)
        ensures
            r.name == self.name,
            r.description == self.description,
            r.system_prompt == self.system_prompt,
            r.skills@ == self.skills@.push(skill),
            r.extra_tools == self.extra_tools,
    {
        let mut d = self;
        d.skills.push(skill);
        d
    }

    pub fn with_tool(self, tool: T) -> (r: Self)
        ensures
            r.name == self.name,
            r.description == self.description,
            r.system_prompt == self.system_prompt,
            r.skills == self.skills,
            r.extra_tools@ == self.extra_tools@.push(tool),
    {
        let mut d = self;
        d.extra_tools.push(tool);
        d
    }
}

/// The definitions are in strictly increasing order of name (so no name occurs twice).
pub open spec fn names_sorted<T>(s: Seq<Arc<SubAgentDef<T>>>) -> bool {
    forall|i: int, j: int| 0 <= i < j < s.len() ==> text_lt(#[trigger] s[i].name@, #[trigger] s[j].name@)
}

/// The definition named `name`: the first with that name.
pub open spec fn find_def<T>(s: Seq<Arc<SubAgentDef<T>>>, name: Seq<char>) -> Option<Arc<SubAgentDef<T>>>
    decreases s.len(),
{
    if s.len() == 0 {
        None
    } else if s[0].name@ == name {
        Some(s[0])
    } else {
        find_def(s.drop_first(), name)
    }
}

/// The line that describes a sub-agent in a tool's parameter schema: `  - name: description`.
pub open spec fn description_line<T>(d: Arc<SubAgentDef<T>>) -> Seq<char> {
    "  - "@ + d.name@ + ": "@ + d.description@
}

/// Sub-agent definitions by name, kept in order of name. Registering a name again
/// replaces the definition held under it.
pub struct SubAgentRegistry<T> {
    agents: Vec<Arc<SubAgentDef<T>>>,
}

impl<T> View for SubAgentRegistry<T> {
    type V = Seq<Arc<SubAgentDef<T>>>;

    /// The definitions held, in order of name.
    closed spec fn view(&self) -> Seq<Arc<SubAgentDef<T>>> {
        self.agents@
    }
}

impl<T> SubAgentRegistry<T> {
    #[verifier::type_invariant]
    spec fn sorted(self) -> bool {
        names_sorted(self.agents@)
    }

    /// An empty registry.
    pub fn new() -> (r: Self)
        ensures
            r@.len() == 0,
    {
        SubAgentRegistry { agents: Vec::new() }
    }

    /// Registers a definition under its name.
    pub fn register(&mut self, def: SubAgentDef<T>)
        ensures
            names_sorted(final(self)@),
            forall|n: Seq<char>| #[trigger] find_def(final(self)@, n) == if n == def.name@ {
                Some(Arc::new(def))
            } else {
                find_def(old(self)@, n)
            },
            final(self)@.len() == old(self)@.len() + if find_def(old(self)@, def.name@) is Some { 0int } else { 1 },
    {
        self.register_arc(Arc::new(def));
    }

    /// Registers a shared definition under its name, at its place in the order of names.
    pub fn register_arc(&mut self, def: Arc<SubAgentDef<T>>)
        ensures
            names_sorted(final(self)@),
            forall|n: Seq<char>| #[trigger] find_def(final(self)@, n) == if n == def.name@ {
                Some(def)
            } else {
                find_def(old(self)@, n)
            },
            final(self)@.len() == old(self)@.len() + if find_def(old(self)@, def.name@) is Some { 0int } else { 1 },
    {
        proof { use_type_invariant(&*self); }
        let mut agents: Vec<Arc<SubAgentDef<T>>> = Vec::new();
        std::mem::swap(&mut agents, &mut self.agents);
        let ghost s = agents@;
        assert(s == old(self)@);
        let mut i: usize = 0;
        while i < agents.len() && str_lt(agents[i].name.as_str(), def.name.as_str())
            invariant
                agents@ == s,
                names_sorted(s),
                i <= s.len(),
                forall|k: int| 0 <= k < i ==> text_lt(#[trigger] s[k].name@, def.name@),
            decreases s.len() - i,
        {
            i = i + 1;
        }
        proof {
            lemma_find_def_sorted(s, def.name@);
            assert forall|k: int| 0 <= k < i implies s[k].name@ != def.name@ by {
                lemma_text_lt_irreflexive(def.name@);
            }
        }
        if i < agents.len() && str_eq(agents[i].name.as_str(), def.name.as_str()) {
            let ghost t = s.update(i as int, def);
            agents.set(i, def);
            proof {
                assert(agents@ == t);
                assert forall|n: Seq<char>| #[trigger] find_def(t, n) == if n == def.name@ {
                    Some(def)
                } else {
                    find_def(s, n)
                } by {
                    lemma_find_def_update(s, i as int, def, n);
                }
                assert forall|a: int, b: int| 0 <= a < b < t.len() implies text_lt(#[trigger] t[a].name@, #[trigger] t[b].name@) by {
                    assert(s[a].name@ == t[a].name@ || a == i);
                    assert(s[b].name@ == t[b].name@ || b == i);
                    if a == i {
                        assert(t[a].name@ == s[a].name@);
                    }
                    if b == i {
                        assert(t[b].name@ == s[b].name@);
                    }
                }
                lemma_find_def_some(s, def.name@);
                assert(s[i as int].name@ == def.name@);
                assert(find_def(s, def.name@) is Some);
            }
            self.agents = agents;
        } else {
            proof {
                if i < s.len() {
                    lemma_text_lt_total(s[i as int].name@, def.name@);
                }
                lemma_find_def_some(s, def.name@);
                if find_def(s, def.name@) is Some {
                    let k = choose|k: int| 0 <= k < s.len() && s[k].name@ == def.name@;
                    if k >= i {
                        if k > i {
                            assert(text_lt(s[i as int].name@, s[k].name@));
                            lemma_text_lt_transitive(def.name@, s[i as int].name@, s[k].name@);
                        }
                        lemma_text_lt_irreflexive(def.name@);
                    }
                }
            }
            let ghost t = s.insert(i as int, def);
            agents.insert(i, def);
            proof {
                assert(agents@ == t);
                assert forall|n: Seq<char>| #[trigger] find_def(t, n) == if n == def.name@ {
                    Some(def)
                } else {
                    find_def(s, n)
                } by {
                    lemma_find_def_insert(s, i as int, def, n);
                }
                assert forall|a: int, b: int| 0 <= a < b < t.len() implies text_lt(#[trigger] t[a].name@, #[trigger] t[b].name@) by {
                    if b < i {
                        assert(t[a] == s[a] && t[b] == s[b]);
                    } else if b == i {
                        assert(t[a] == s[a]);
                    } else if a < i {
                        assert(t[a] == s[a] && t[b] == s[b - 1]);
                    } else if a == i {
                        assert(t[b] == s[b - 1]);
                        if b - 1 > i {
                            assert(text_lt(s[i as int].name@, s[b - 1].name@));
                            lemma_text_lt_transitive(def.name@, s[i as int].name@, s[b - 1].name@);
                        }
                    } else {
                        assert(t[a] == s[a - 1] && t[b] == s[b - 1]);
                    }
                }
            }
            self.agents = agents;
        }
    }

    /// The definition registered under `name`.
    pub fn get(&self, name: &str) -> (r: Option<Arc<SubAgentDef<T>>>)
        ensures
            r == find_def(self@, name@),
    {
        let mut i: usize = 0;
        assert(self.agents@.subrange(0, self.agents@.len() as int) =~= self.agents@);
        while i < self.agents.len()
            invariant
                i <= self.agents@.len(),
                find_def(self.agents@, name@) == find_def(self.agents@.subrange(i as int, self.agents@.len() as int), name@),
            decreases self.agents@.len() - i,
        {
            proof {
                let rest = self.agents@.subrange(i as int, self.agents@.len() as int);
                assert(rest.drop_first() =~= self.agents@.subrange(i + 1, self.agents@.len() as int));
                assert(rest[0] == self.agents@[i as int]);
            }
            if str_eq(self.agents[i].name.as_str(), name) {
                return Some(self.agents[i].clone());
            }
            i = i + 1;
        }
        None
    }

    /// Whether nothing is registered.
    pub(crate) fn is_empty(&self) -> (r: bool)
        ensures
            r == (self@.len() == 0),
    {
        self.agents.len() == 0
    }

    /// The registered names, in order of name.
    pub fn names(&self) -> (r: Vec<&str>)
        ensures
            names_sorted(self@),
            r@.len() == self@.len(),
            forall|k: int| 0 <= k < r@.len() ==> (#[trigger] r@[k])@ == self@[k].name@,
    {
        proof { use_type_invariant(self); }
        let mut out: Vec<&str> = Vec::new();
        let mut i: usize = 0;
        while i < self.agents.len()
            invariant
                i <= self.agents@.len(),
                out@.len() == i,
                forall|k: int| 0 <= k < i ==> (#[trigger] out@[k])@ == self.agents@[k].name@,
            decreases self.agents@.len() - i,
        {
            out.push(self.agents[i].name.as_str());
            i = i + 1;
        }
        out
    }

    /// One `  - name: description` line per definition, in order of name.
    pub fn descriptions(&self) -> (r: Vec<String>)
        ensures
            names_sorted(self@),
            strings_view(r@) == self@.map_values(|d: Arc<SubAgentDef<T>>| description_line(d)),
    {
        proof { use_type_invariant(self); }
        let mut out: Vec<String> = Vec::new();
        let mut i: usize = 0;
        while i < self.agents.len()
            invariant
                i <= self.agents@.len(),
                strings_view(out@) == self.agents@.take(i as int).map_values(|d: Arc<SubAgentDef<T>>| description_line(d)),
            decreases self.agents@.len() - i,
        {
            let ghost prev = strings_view(out@);
            let d = &self.agents[i];
            let mut l = owned("  - ");
            l.append(d.name.as_str());
            l.append(": ");
            l.append(d.description.as_str());
            out.push(l);
            assert(strings_view(out@) =~= prev.push(description_line(self.agents@[i as int])));
            assert(self.agents@.take(i + 1).map_values(|d: Arc<SubAgentDef<T>>| description_line(d))
                =~= self.agents@.take(i as int).map_values(|d: Arc<SubAgentDef<T>>| description_line(d)).push(
                description_line(self.agents@[i as int])));
            i = i + 1;
        }
        assert(self.agents@.take(self.agents@.len() as int) =~= self.agents@);
        out
    }
}

impl<T> Default for SubAgentRegistry<T> {
    /// An empty registry.
    fn default() -> (r: Self)
        ensures
            r@.len() == 0,
    {
        SubAgentRegistry::new()
    }
}

impl<T> Clone for SubAgentRegistry<T> {
    /// A registry sharing the same definitions.
    fn clone(&self) -> (r: Self)
        ensures
            r@ == self@,
    {
        proof { use_type_invariant(self); }
        let mut agents: Vec<Arc<SubAgentDef<T>>> = Vec::new();
        let mut i: usize = 0;
        while i < self.agents.len()
            invariant
                i <= self.agents@.len(),
                agents@ == self.agents@.take(i as int),
            decreases self.agents@.len() - i,
        {
            agents.push(self.agents[i].clone());
            assert(agents@ =~= self.agents@.take(i + 1));
            i = i + 1;
        }
        assert(self.agents@.take(self.agents@.len() as int) =~= self.agents@);
        SubAgentRegistry { agents }
    }
}

proof fn lemma_find_def_some<T>(s: Seq<Arc<SubAgentDef<T>>>, n: Seq<char>)
    ensures
        find_def(s, n) is Some <==> exists|i: int| 0 <= i < s.len() && s[i].name@ == n,
        find_def(s, n) matches Some(x) ==> x.name@ == n,
    decreases s.len(),
{
    if s.len() > 0 {
        lemma_find_def_some(s.drop_first(), n);
        if exists|i: int| 0 <= i < s.len() && s[i].name@ == n {
            let i = choose|i: int| 0 <= i < s.len() && s[i].name@ == n;
            if i > 0 {
                assert(s.drop_first()[i - 1] == s[i]);
            }
        }
        if exists|i: int| 0 <= i < s.drop_first().len() && s.drop_first()[i].name@ == n {
            let i = choose|i: int| 0 <= i < s.drop_first().len() && s.drop_first()[i].name@ == n;
            assert(s[i + 1] == s.drop_first()[i]);
        }
    }
}

/// In a sorted sequence a name occurs at most once.
proof fn lemma_find_def_sorted<T>(s: Seq<Arc<SubAgentDef<T>>>, n: Seq<char>)
    requires
        names_sorted(s),
    ensures
        forall|i: int| 0 <= i < s.len() && s[i].name@ == n ==> find_def(s, n) == Some(s[i]),
    decreases s.len(),
{
    if s.len() > 0 {
        assert(names_sorted(s.drop_first())) by {
            assert forall|a: int, b: int| 0 <= a < b < s.drop_first().len() implies
                text_lt(#[trigger] s.drop_first()[a].name@, #[trigger] s.drop_first()[b].name@) by {
                assert(s.drop_first()[a] == s[a + 1] && s.drop_first()[b] == s[b + 1]);
            }
        }
        lemma_find_def_sorted(s.drop_first(), n);
        assert forall|i: int| 0 <= i < s.len() && s[i].name@ == n implies find_def(s, n) == Some(s[i]) by {
            if i > 0 {
                assert(text_lt(s[0].name@, s[i].name@));
                lemma_text_lt_irreflexive(n);
                assert(s.drop_first()[i - 1] == s[i]);
            }
        }
    }
}

proof fn lemma_find_def_update<T>(s: Seq<Arc<SubAgentDef<T>>>, i: int, x: Arc<SubAgentDef<T>>, n: Seq<char>)
    requires
        0 <= i < s.len(),
        s[i].name@ == x.name@,
        forall|m: int| 0 <= m < i ==> s[m].name@ != x.name@,
    ensures
        find_def(s.update(i, x), n) == if n == x.name@ { Some(x) } else { find_def(s, n) },
    decreases i,
{
    let t = s.update(i, x);
    assert(t[0] == if i == 0 { x } else { s[0] });
    if i == 0 {
        assert(t.drop_first() =~= s.drop_first());
    } else {
        lemma_find_def_update(s.drop_first(), i - 1, x, n);
        assert(t.drop_first() =~= s.drop_first().update(i - 1, x));
        assert(s[0].name@ != x.name@);
    }
}

proof fn lemma_find_def_insert<T>(s: Seq<Arc<SubAgentDef<T>>>, i: int, x: Arc<SubAgentDef<T>>, n: Seq<char>)
    requires
        0 <= i <= s.len(),
        forall|m: int| 0 <= m < s.len() ==> s[m].name@ != x.name@,
    ensures
        find_def(s.insert(i, x), n) == if n == x.name@ { Some(x) } else { find_def(s, n) },
    decreases i,
{
    let t = s.insert(i, x);
    if i == 0 {
        assert(t[0] == x);
        assert(t.drop_first() =~= s);
        if n != x.name@ {
        }
    } else {
        assert(t[0] == s[0]);
        assert(forall|m: int| 0 <= m < s.drop_first().len() ==> s.drop_first()[m] == s[m + 1]);
        lemma_find_def_insert(s.drop_first(), i - 1, x, n);
        assert(t.drop_first() =~= s.drop_first().insert(i - 1, x));
        assert(s[0].name@ != x.name@);
    }
}

} // verus!
