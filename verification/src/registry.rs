//! The tool registry: a name-unique catalog of tool definitions, the
//! default-deny permission filter, and per-tool execution metrics.

use vstd::prelude::*;

use crate::metrics::sat_add;
use crate::permissions::names_contain;
use crate::text;

verus! {

/// What a tool publishes about itself: its unique name, a description, and
/// its parameter schema as JSON text.
#[derive(Debug)]
pub struct ToolDef {
    pub name: String,
    pub description: String,
    pub parameters: String,
}

impl Clone for ToolDef {
    fn clone(&self) -> (r: Self)
        ensures
            r.name@ == self.name@,
            r.description@ == self.description@,
            r.parameters@ == self.parameters@,
    {
        ToolDef {
            name: self.name.clone(),
            description: self.description.clone(),
            parameters: self.parameters.clone(),
        }
    }
}

/// Per-tool execution metrics.
#[derive(Debug, Clone, Copy)]
pub struct ToolMetrics {
    pub execution_count: u64,
    pub success_count: u64,
    pub failure_count: u64,
    pub total_duration_ms: u64,
}

impl ToolMetrics {
    /// All counters start at zero.
    pub fn new() -> (r: Self)
        ensures
            r.execution_count == 0,
            r.success_count == 0,
            r.failure_count == 0,
            r.total_duration_ms == 0,
    {
        ToolMetrics { execution_count: 0, success_count: 0, failure_count: 0, total_duration_ms: 0 }
    }
}

/// `a` publishes the same name, description and parameters as `b`.
pub open spec fn def_like(a: ToolDef, b: ToolDef) -> bool {
    a.name@ == b.name@ && a.description@ == b.description@ && a.parameters@ == b.parameters@
}

/// The two catalogs publish the same definitions, in the same order.
pub open spec fn defs_like(a: Seq<ToolDef>, b: Seq<ToolDef>) -> bool {
    a.len() == b.len() && forall|j: int| 0 <= j < a.len() ==> def_like(#[trigger] a[j], b[j])
}

/// A name admits a tool when it lists the tool itself or the allow-all
/// marker `*`. An empty list admits nothing.
pub open spec fn spec_tool_allowed(allowed: Seq<String>, name: Seq<char>) -> bool {
    names_contain(allowed, name) || names_contain(allowed, "*"@)
}

/// The definitions whose names the allow-list admits, in registry order.
pub open spec fn spec_filtered_defs(defs: Seq<ToolDef>, allowed: Seq<String>) -> Seq<ToolDef>
    decreases defs.len(),
{
    if defs.len() == 0 {
        Seq::empty()
    } else if names_contain(allowed, defs[0].name@) {
        seq![defs[0]] + spec_filtered_defs(defs.drop_first(), allowed)
    } else {
        spec_filtered_defs(defs.drop_first(), allowed)
    }
}

proof fn lemma_filtered_defs_push(defs: Seq<ToolDef>, allowed: Seq<String>, d: ToolDef)
    ensures
        spec_filtered_defs(defs.push(d), allowed) == if names_contain(allowed, d.name@) {
            spec_filtered_defs(defs, allowed).push(d)
        } else {
            spec_filtered_defs(defs, allowed)
        },
    decreases defs.len(),
{
    if defs.len() == 0 {
        assert(defs.push(d).drop_first() =~= Seq::<ToolDef>::empty());
        assert(defs.push(d)[0] == d);
        assert(spec_filtered_defs(Seq::<ToolDef>::empty(), allowed) =~= Seq::<ToolDef>::empty());
        assert(spec_filtered_defs(defs, allowed) =~= Seq::<ToolDef>::empty());
        if names_contain(allowed, d.name@) {
            assert(spec_filtered_defs(defs.push(d), allowed) =~= seq![d]
                + spec_filtered_defs(defs.push(d).drop_first(), allowed));
            assert(spec_filtered_defs(defs.push(d), allowed) =~= spec_filtered_defs(
                defs,
                allowed,
            ).push(d));
        }
    } else {
        assert(defs.push(d).drop_first() =~= defs.drop_first().push(d));
        assert(defs.push(d)[0] == defs[0]);
        lemma_filtered_defs_push(defs.drop_first(), allowed, d);
        if names_contain(allowed, d.name@) {
            assert(spec_filtered_defs(defs.push(d), allowed) =~= spec_filtered_defs(
                defs,
                allowed,
            ).push(d));
        }
    }
}

/// Default-deny: an empty allow-list admits no tool, and filters every
/// catalog down to nothing.
pub proof fn lemma_empty_allowed_denies(name: Seq<char>, defs: Seq<ToolDef>)
    ensures
        !spec_tool_allowed(Seq::<String>::empty(), name),
        spec_filtered_defs(defs, Seq::<String>::empty()) == Seq::<ToolDef>::empty(),
    decreases defs.len(),
{
    if defs.len() > 0 {
        lemma_empty_allowed_denies(name, defs.drop_first());
    }
}

/// The catalog of registered tools (name-unique, in registration order) and
/// their execution metrics. Tool bodies run outside the library; the
/// registry holds what they publish.
#[derive(Debug)]
pub struct ToolRegistry {
    pub tools: Vec<ToolDef>,
    pub metrics: Vec<(String, ToolMetrics)>,
}

impl ToolRegistry {
    /// Registered names are unique.
    pub open spec fn tools_wf(&self) -> bool {
        forall|i: int, j: int|
            0 <= i < j < self.tools@.len() ==> self.tools@[i].name@ != self.tools@[j].name@
    }

    /// Each tool has at most one metrics record.
    pub open spec fn metrics_wf(&self) -> bool {
        forall|i: int, j: int|
            0 <= i < j < self.metrics@.len() ==> self.metrics@[i].0@ != self.metrics@[j].0@
    }

    /// Registered names are unique, and so are the metrics records.
    pub open spec fn wf(&self) -> bool {
        self.tools_wf() && self.metrics_wf()
    }

    /// The empty registry.
    pub fn new() -> (r: Self)
        ensures
            r.wf(),
            r.tools@.len() == 0,
            r.metrics@.len() == 0,
    {
        ToolRegistry { tools: Vec::new(), metrics: Vec::new() }
    }

    /// The index of the definition under `name`, if any.
    fn find(&self, name: &str) -> (r: Option<usize>)
        ensures
            match r {
                Some(i) => i < self.tools@.len() && self.tools@[i as int].name@ == name@,
                None => forall|j: int| 0 <= j < self.tools@.len() ==> self.tools@[j].name@ != name@,
            },
    {
        let count = self.tools.len();
        for i in 0..count
            invariant
                count == self.tools.len(),
                forall|j: int| 0 <= j < i ==> self.tools@[j].name@ != name@,
        {
            if text::str_eq(self.tools[i].name.as_str(), name) {
                return Some(i);
            }
        }
        None
    }

    /// Register a tool definition, replacing any earlier one of the same
    /// name: the catalog is exactly the old one, less any definition under
    /// the new name, with the new definition appended.
    pub fn register(&mut self, def: ToolDef)
        requires
            old(self).tools_wf(),
        ensures
            final(self).tools_wf(),
            final(self).tools@.last() == def,
            (exists|j: int|
                0 <= j < old(self).tools@.len() && (#[trigger] old(self).tools@[j]).name@
                    == def.name@) ==> (exists|j: int|
                {
                    &&& 0 <= j < old(self).tools@.len()
                    &&& (#[trigger] old(self).tools@[j]).name@ == def.name@
                    &&& final(self).tools@ == old(self).tools@.remove(j).push(def)
                }),
            !(exists|j: int|
                0 <= j < old(self).tools@.len() && (#[trigger] old(self).tools@[j]).name@
                    == def.name@) ==> final(self).tools@ == old(self).tools@.push(def),
            final(self).metrics@ == old(self).metrics@,
    {
        match self.find(def.name.as_str()) {
            Some(i) => {
                let ghost before = self.tools@;
                self.tools.remove(i);
                proof {
                    assert forall|a: int, b: int|
                        0 <= a < b < self.tools@.len() implies self.tools@[a].name@
                        != self.tools@[b].name@ by {
                        let (a0, b0) = (
                            if a < i {
                                a
                            } else {
                                a + 1
                            },
                            if b < i {
                                b
                            } else {
                                b + 1
                            },
                        );
                        assert(self.tools@[a] == before[a0] && self.tools@[b] == before[b0]);
                    }
                    assert forall|j: int|
                        0 <= j < self.tools@.len() implies self.tools@[j].name@ != def.name@ by {
                        if j < i {
                            assert(self.tools@[j] == before[j]);
                        } else {
                            assert(self.tools@[j] == before[j + 1]);
                        }
                    }
                }
            },
            None => {
            },
        }
        let ghost mid = self.tools@;
        self.tools.push(def);
        proof {
            assert(self.tools@.last() == def);
        }
    }

    /// Look a tool up by name.
    pub fn get(&self, name: &str) -> (r: Option<ToolDef>)
        ensures
            match r {
                Some(d) => d.name@ == name@ && (exists|i: int|
                    0 <= i < self.tools@.len() && #[trigger] self.tools@[i].name@ == name@
                        && self.tools@[i].description@ == d.description@
                        && self.tools@[i].parameters@ == d.parameters@),
                None => forall|j: int| 0 <= j < self.tools@.len() ==> self.tools@[j].name@ != name@,
            },
    {
        match self.find(name) {
            Some(i) => Some(self.tools[i].clone()),
            None => None,
        }
    }

    /// Every registered definition, in registration order.
    pub fn list_definitions(&self) -> (r: Vec<ToolDef>)
        ensures
            defs_like(r@, self.tools@),
    {
        let mut out: Vec<ToolDef> = Vec::new();
        let count = self.tools.len();
        for i in 0..count
            invariant
                count == self.tools.len(),
                defs_like(out@, self.tools@.subrange(0, i as int)),
        {
            out.push(self.tools[i].clone());
            assert(defs_like(out@, self.tools@.subrange(0, i + 1)));
        }
        assert(self.tools@.subrange(0, count as int) =~= self.tools@);
        out
    }

    /// The definitions an allow-list admits. An empty list admits nothing
    /// (strict default deny); a list holding `*` admits everything.
    #[verifier::loop_isolation(false)]
    pub fn list_definitions_for_permissions(&self, allowed_tools: &Vec<String>) -> (r: Vec<ToolDef>)
        ensures
            allowed_tools@.len() == 0 ==> r@.len() == 0,
            names_contain(allowed_tools@, "*"@) ==> defs_like(r@, self.tools@),
            allowed_tools@.len() > 0 && !names_contain(allowed_tools@, "*"@) ==> defs_like(
                r@,
                spec_filtered_defs(self.tools@, allowed_tools@),
            ),
    {
        if allowed_tools.len() == 0 {
            return Vec::new();
        }
        let mut has_star = false;
        let count = allowed_tools.len();
        for i in 0..count
            invariant
                count == allowed_tools.len(),
                has_star == names_contain(allowed_tools@.subrange(0, i as int), "*"@),
        {
            let ghost prefix = allowed_tools@.subrange(0, i as int);
            if text::str_eq(allowed_tools[i].as_str(), "*") {
                has_star = true;
            }
            proof {
                if has_star {
                    if allowed_tools@[i as int]@ == "*"@ {
                        assert(allowed_tools@.subrange(0, i + 1)[i as int]@ == "*"@);
                    } else {
                        let w = choose|w: int| 0 <= w < i && prefix[w]@ == "*"@;
                        assert(allowed_tools@.subrange(0, i + 1)[w]@ == "*"@);
                    }
                } else {
                    assert forall|w: int|
                        0 <= w < i + 1 implies (#[trigger] allowed_tools@.subrange(0, i + 1)[w])@
                        != "*"@ by {
                        if w < i {
                            assert(prefix[w]@ == allowed_tools@[w]@);
                        }
                    }
                }
            }
        }
        proof {
            assert(allowed_tools@.subrange(0, count as int) =~= allowed_tools@);
        }
        if has_star {
            return self.list_definitions();
        }
        let mut out: Vec<ToolDef> = Vec::new();
        let n = self.tools.len();
        proof {
            assert(self.tools@.subrange(0, 0) =~= Seq::<ToolDef>::empty());
            assert(spec_filtered_defs(Seq::<ToolDef>::empty(), allowed_tools@)
                =~= Seq::<ToolDef>::empty());
        }
        for i in 0..n
            invariant
                n == self.tools.len(),
                defs_like(
                    out@,
                    spec_filtered_defs(self.tools@.subrange(0, i as int), allowed_tools@),
                ),
        {
            let def = &self.tools[i];
            let mut in_list = false;
            let m = allowed_tools.len();
            for j in 0..m
                invariant
                    m == allowed_tools.len(),
                    i < self.tools.len(),
                    in_list == names_contain(allowed_tools@.subrange(0, j as int), def.name@),
                    def == &self.tools@[i as int],
            {
                let ghost prefix = allowed_tools@.subrange(0, j as int);
                if text::str_eq(allowed_tools[j].as_str(), def.name.as_str()) {
                    in_list = true;
                }
                proof {
                    if in_list {
                        if allowed_tools@[j as int]@ == def.name@ {
                            assert(allowed_tools@.subrange(0, j + 1)[j as int]@ == def.name@);
                        } else {
                            let w = choose|w: int| 0 <= w < j && prefix[w]@ == def.name@;
                            assert(allowed_tools@.subrange(0, j + 1)[w]@ == def.name@);
                        }
                    } else {
                        assert forall|w: int|
                            0 <= w < j + 1 implies (#[trigger] allowed_tools@.subrange(
                            0,
                            j + 1,
                        )[w])@ != def.name@ by {
                            if w < j {
                                assert(prefix[w]@ == allowed_tools@[w]@);
                            }
                        }
                    }
                }
            }
            proof {
                assert(allowed_tools@.subrange(0, m as int) =~= allowed_tools@);
            }
            let ghost out_before = out@;
            let ghost f_before = spec_filtered_defs(
                self.tools@.subrange(0, i as int),
                allowed_tools@,
            );
            if in_list {
                out.push(self.tools[i].clone());
            }
            proof {
                lemma_filtered_defs_push(
                    self.tools@.subrange(0, i as int),
                    allowed_tools@,
                    self.tools@[i as int],
                );
                assert(self.tools@.subrange(0, i as int).push(self.tools@[i as int])
                    =~= self.tools@.subrange(0, i + 1));
                let f_after = spec_filtered_defs(self.tools@.subrange(0, i + 1), allowed_tools@);
                if in_list {
                    assert(f_after == f_before.push(self.tools@[i as int]));
                    assert(out@ == out_before.push(out@[out@.len() - 1]));
                    assert forall|j: int| 0 <= j < out@.len() implies def_like(
                        #[trigger] out@[j],
                        f_after[j],
                    ) by {
                        if j < out_before.len() {
                            assert(def_like(out_before[j], f_before[j]));
                        } else {
                            assert(f_after[j] == self.tools@[i as int]);
                        }
                    }
                    assert(defs_like(out@, f_after));
                } else {
                    assert(f_after == f_before);
                    assert(defs_like(out@, f_after));
                }
            }
        }
        proof {
            assert(self.tools@.subrange(0, n as int) =~= self.tools@);
        }
        out
    }

    /// Check if a tool name is in the allowed list. An empty list allows
    /// nothing.
    pub fn is_tool_allowed(tool_name: &str, allowed_tools: &Vec<String>) -> (r: bool)
        ensures
            r == spec_tool_allowed(allowed_tools@, tool_name@),
    {
        let count = allowed_tools.len();
        for i in 0..count
            invariant
                count == allowed_tools.len(),
                forall|j: int|
                    0 <= j < i ==> allowed_tools@[j]@ != tool_name@ && allowed_tools@[j]@ != "*"@,
        {
            if text::str_eq(allowed_tools[i].as_str(), tool_name) || text::str_eq(
                allowed_tools[i].as_str(),
                "*",
            ) {
                return true;
            }
        }
        false
    }

    /// Record the outcome of one tool execution under the tool's name.
    pub fn record_metrics(&mut self, tool_name: &str, duration_ms: u64, success: bool)
        requires
            old(self).metrics_wf(),
        ensures
            final(self).metrics_wf(),
            final(self).tools@ == old(self).tools@,
            forall|i: int|
                0 <= i < old(self).metrics@.len() && old(self).metrics@[i].0@ != tool_name@
                    ==> final(self).metrics@[i] == old(self).metrics@[i],
            exists|i: int|
                0 <= i < final(self).metrics@.len() && (#[trigger] final(self).metrics@[i]).0@
                    == tool_name@ && ({
                    let prior = spec_metrics_before(old(self).metrics@, tool_name@);
                    let m = final(self).metrics@[i].1;
                    &&& m.execution_count == sat_add(prior.execution_count, 1)
                    &&& m.total_duration_ms == sat_add(prior.total_duration_ms, duration_ms)
                    &&& m.success_count == if success {
                        sat_add(prior.success_count, 1)
                    } else {
                        prior.success_count
                    }
                    &&& m.failure_count == if success {
                        prior.failure_count
                    } else {
                        sat_add(prior.failure_count, 1)
                    }
                }),
    {
        let count = self.metrics.len();
        let mut found: Option<usize> = None;
        for i in 0..count
            invariant
                count == self.metrics.len(),
                match found {
                    Some(w) => w < count && self.metrics@[w as int].0@ == tool_name@,
                    None => forall|j: int| 0 <= j < i ==> self.metrics@[j].0@ != tool_name@,
                },
        {
            if found.is_none() && text::str_eq(self.metrics[i].0.as_str(), tool_name) {
                found = Some(i);
            }
        }
        let (idx, prior): (usize, ToolMetrics) = match found {
            Some(i) => (i, self.metrics[i].1),
            None => {
                let n = self.metrics.len();
                self.metrics.push((String::from_str(tool_name), ToolMetrics::new()));
                (n, ToolMetrics::new())
            },
        };
        let ghost prior_spec = spec_metrics_before(old(self).metrics@, tool_name@);
        let updated = ToolMetrics {
            execution_count: prior.execution_count.saturating_add(1),
            success_count: if success {
                prior.success_count.saturating_add(1)
            } else {
                prior.success_count
            },
            failure_count: if success {
                prior.failure_count
            } else {
                prior.failure_count.saturating_add(1)
            },
            total_duration_ms: prior.total_duration_ms.saturating_add(duration_ms),
        };
        proof {
            if found is Some {
                let w = choose|i: int|
                    0 <= i < old(self).metrics@.len() && old(self).metrics@[i].0@ == tool_name@;
                assert(w == idx);
                assert(prior == prior_spec);
            } else {
                assert(prior == prior_spec);
            }
        }
        let name_clone = self.metrics[idx].0.clone();
        let ghost before = self.metrics@;
        self.metrics.remove(idx);
        self.metrics.insert(idx, (name_clone, updated));
        proof {
            assert forall|i: int| 0 <= i < self.metrics@.len() && i != idx implies self.metrics@[i]
                == before[i] by {
                if i < idx {
                    assert(before.remove(idx as int)[i] == before[i]);
                } else {
                    assert(before.remove(idx as int)[i - 1] == before[i]);
                }
            }
            assert(self.metrics@[idx as int].0@ == tool_name@);
            assert(self.metrics@[idx as int].1 == updated);
            assert forall|a: int, b: int|
                0 <= a < b < self.metrics@.len() implies self.metrics@[a].0@
                != self.metrics@[b].0@ by {
                assert(self.metrics@[a].0@ == before[a].0@);
                assert(self.metrics@[b].0@ == before[b].0@);
                if found is None {
                    if b == idx {
                        assert(before[b].0@ == tool_name@);
                        assert(before[a] == old(self).metrics@[a]);
                    } else {
                        assert(before[a] == old(self).metrics@[a]);
                        assert(before[b] == old(self).metrics@[b]);
                    }
                } else {
                    assert(before == old(self).metrics@);
                }
            }
        }
    }

    /// The recorded metrics for one tool, when any execution was recorded.
    pub fn metrics_for(&self, tool_name: &str) -> (r: Option<ToolMetrics>)
        ensures
            match r {
                Some(m) => exists|i: int|
                    0 <= i < self.metrics@.len() && #[trigger] self.metrics@[i].0@ == tool_name@
                        && self.metrics@[i].1 == m,
                None => forall|j: int|
                    0 <= j < self.metrics@.len() ==> self.metrics@[j].0@ != tool_name@,
            },
    {
        let count = self.metrics.len();
        for i in 0..count
            invariant
                count == self.metrics.len(),
                forall|j: int| 0 <= j < i ==> self.metrics@[j].0@ != tool_name@,
        {
            if text::str_eq(self.metrics[i].0.as_str(), tool_name) {
                return Some(self.metrics[i].1);
            }
        }
        None
    }
}

/// The metrics recorded under `name` before an update: the first entry's
/// counters, or zeroes when none was there.
pub open spec fn spec_metrics_before(entries: Seq<(String, ToolMetrics)>, name: Seq<char>) -> ToolMetrics {
    if exists|i: int| 0 <= i < entries.len() && entries[i].0@ == name {
        entries[choose|i: int| 0 <= i < entries.len() && entries[i].0@ == name].1
    } else {
        ToolMetrics { execution_count: 0, success_count: 0, failure_count: 0, total_duration_ms: 0 }
    }
}

} // verus!
