//! The context builder: the ordered prompt list handed to the model — the
//! system prompt with workspace context files, the summary, the always-on
//! skill texts, the sliding history window with its omitted-messages notice,
//! and the current input — plus the default-deny resolution of allowed
//! tools. Reading files from the workspace happens outside the library.

use vstd::prelude::*;

use crate::permissions::ApprovedSkills;
use crate::skills::Skill;
use crate::text;
use crate::types::Message;
use crate::types::Role;
use crate::types::message_like;

verus! {

/// Conversation history messages included in context, at most.
pub const MAX_HISTORY_MESSAGES: usize = 20;

/// How many omitted-messages notices the context carries for a history of
/// this length: one once the window is exceeded, else none.
pub open spec fn omitted_notice_count(hist_len: int) -> int {
    if hist_len > MAX_HISTORY_MESSAGES {
        1
    } else {
        0
    }
}

/// How many history messages the context includes: the whole history up to
/// the window, then only the newest window.
pub open spec fn included_history_count(hist_len: int) -> int {
    if hist_len > MAX_HISTORY_MESSAGES {
        MAX_HISTORY_MESSAGES as int
    } else {
        hist_len
    }
}

/// Boundary of the sliding window: a history exactly at the window length
/// gets no notice and is included whole; one message past it gets exactly
/// one notice and only the newest window.
pub proof fn lemma_history_window_boundary()
    ensures
        omitted_notice_count(MAX_HISTORY_MESSAGES as int) == 0,
        included_history_count(MAX_HISTORY_MESSAGES as int) == MAX_HISTORY_MESSAGES,
        omitted_notice_count(MAX_HISTORY_MESSAGES as int + 1) == 1,
        included_history_count(MAX_HISTORY_MESSAGES as int + 1) == MAX_HISTORY_MESSAGES,
{
}

/// An approved skill with no permissions block, or an empty tools list,
/// grants every tool.
pub open spec fn skill_grants_all(s: Skill, approved: ApprovedSkills) -> bool {
    approved.spec_approved(s.name@) && (match s.permissions {
        None => true,
        Some(p) => p.tools@.len() == 0,
    })
}

/// An approved skill that declares tools contributes them to the union.
pub open spec fn skill_grants_tool(s: Skill, approved: ApprovedSkills, tool: Seq<char>) -> bool {
    approved.spec_approved(s.name@) && (match s.permissions {
        None => false,
        Some(p) => exists|i: int| 0 <= i < p.tools@.len() && (#[trigger] p.tools@[i])@ == tool,
    })
}

/// Some skill in the catalog grants this tool.
pub open spec fn granted_by_some(skills: Seq<Skill>, approved: ApprovedSkills, tool: Seq<char>) -> bool {
    exists|i: int|
        0 <= i < skills.len() && #[trigger] skill_grants_tool(skills[i], approved, tool)
}

/// Some skill in the catalog grants every tool.
pub open spec fn some_skill_grants_all(skills: Seq<Skill>, approved: ApprovedSkills) -> bool {
    exists|i: int| 0 <= i < skills.len() && #[trigger] skill_grants_all(skills[i], approved)
}

/// Some tool is granted by some skill.
pub open spec fn any_tool_granted(skills: Seq<Skill>, approved: ApprovedSkills) -> bool {
    exists|t: Seq<char>| #[trigger] granted_by_some(skills, approved, t)
}

/// The texts of the approved, always-on, available skills, in catalog
/// order.
pub open spec fn spec_always_on_texts(skills: Seq<Skill>, approved: ApprovedSkills) -> Seq<
    Seq<char>,
>
    decreases skills.len(),
{
    if skills.len() == 0 {
        Seq::empty()
    } else if approved.spec_approved(skills[0].name@) && skills[0].always && skills[0].available {
        seq!["Skill: "@ + skills[0].name@ + seq!['\n'] + skills[0].content@]
            + spec_always_on_texts(skills.drop_first(), approved)
    } else {
        spec_always_on_texts(skills.drop_first(), approved)
    }
}

proof fn lemma_always_on_texts_push(skills: Seq<Skill>, approved: ApprovedSkills, s: Skill)
    ensures
        spec_always_on_texts(skills.push(s), approved) == if approved.spec_approved(s.name@)
            && s.always && s.available {
            spec_always_on_texts(skills, approved).push(
                "Skill: "@ + s.name@ + seq!['\n'] + s.content@,
            )
        } else {
            spec_always_on_texts(skills, approved)
        },
    decreases skills.len(),
{
    if skills.len() == 0 {
        assert(skills.push(s).drop_first() =~= Seq::<Skill>::empty());
        assert(skills.push(s)[0] == s);
        assert(spec_always_on_texts(Seq::<Skill>::empty(), approved) =~= Seq::<Seq<char>>::empty());
        assert(spec_always_on_texts(skills, approved) =~= Seq::<Seq<char>>::empty());
        if approved.spec_approved(s.name@) && s.always && s.available {
            assert(spec_always_on_texts(skills.push(s), approved) =~= spec_always_on_texts(
                skills,
                approved,
            ).push("Skill: "@ + s.name@ + seq!['\n'] + s.content@));
        }
    } else {
        assert(skills.push(s).drop_first() =~= skills.drop_first().push(s));
        assert(skills.push(s)[0] == skills[0]);
        lemma_always_on_texts_push(skills.drop_first(), approved, s);
        if approved.spec_approved(s.name@) && s.always && s.available {
            assert(spec_always_on_texts(skills.push(s), approved) =~= spec_always_on_texts(
                skills,
                approved,
            ).push("Skill: "@ + s.name@ + seq!['\n'] + s.content@));
        }
    }
}

/// Builds the model's context from the workspace and the approved skills.
#[derive(Debug)]
pub struct ContextBuilder {
    pub workspace: String,
    pub approved_skills: ApprovedSkills,
}

impl ContextBuilder {
    pub fn new(workspace: String, approved_skills: ApprovedSkills) -> (r: Self)
        ensures
            r.workspace@ == workspace@,
            r.approved_skills == approved_skills,
    {
        ContextBuilder { workspace, approved_skills }
    }

    /// The fixed safe-default tool set used when no approved skill declares
    /// tools.
    pub fn safe_default_tools() -> (r: Vec<String>)
        ensures
            r@.len() == 8,
            r@[0]@ == "read_file"@,
            r@[1]@ == "list_dir"@,
            r@[2]@ == "web_fetch"@,
            r@[3]@ == "web_search"@,
            r@[4]@ == "sessions_list"@,
            r@[5]@ == "sessions_history"@,
            r@[6]@ == "channel_health"@,
            r@[7]@ == "datetime_now"@,
    {
        let mut v: Vec<String> = Vec::new();
        v.push(String::from_str("read_file"));
        v.push(String::from_str("list_dir"));
        v.push(String::from_str("web_fetch"));
        v.push(String::from_str("web_search"));
        v.push(String::from_str("sessions_list"));
        v.push(String::from_str("sessions_history"));
        v.push(String::from_str("channel_health"));
        v.push(String::from_str("datetime_now"));
        v
    }

    /// The tools the approved skills allow: the allow-all marker when any
    /// approved skill has no permissions block or an empty tools list; else
    /// the union of the declared tools; else, with nothing declared, the
    /// safe-default set.
    pub fn get_allowed_tools(&self, skills: &Vec<Skill>) -> (r: Vec<String>)
        ensures
            some_skill_grants_all(skills@, self.approved_skills) ==> (r@.len() == 1 && r@[0]@
                == "*"@),
            !some_skill_grants_all(skills@, self.approved_skills) && any_tool_granted(
                skills@,
                self.approved_skills,
            ) ==> ({
                &&& forall|k: int|
                    0 <= k < r@.len() ==> granted_by_some(
                        skills@,
                        self.approved_skills,
                        (#[trigger] r@[k])@,
                    )
                &&& forall|t: Seq<char>|
                    #[trigger] granted_by_some(skills@, self.approved_skills, t)
                        ==> crate::permissions::names_contain(r@, t)
                &&& forall|a: int, b: int| 0 <= a < b < r@.len() ==> r@[a]@ != r@[b]@
            }),
            !some_skill_grants_all(skills@, self.approved_skills) && !any_tool_granted(
                skills@,
                self.approved_skills,
            ) ==> (r@.len() == 8 && r@[0]@ == "read_file"@ && r@[1]@ == "list_dir"@ && r@[2]@
                == "web_fetch"@ && r@[3]@ == "web_search"@ && r@[4]@ == "sessions_list"@ && r@[5]@
                == "sessions_history"@ && r@[6]@ == "channel_health"@ && r@[7]@
                == "datetime_now"@),
    {
        let n = skills.len();
        // First pass: does any approved skill grant everything?
        for i in 0..n
            invariant
                n == skills@.len(),
                forall|j: int|
                    0 <= j < i ==> !#[trigger] skill_grants_all(skills@[j], self.approved_skills),
        {
            let skill = &skills[i];
            if self.approved_skills.is_approved(skill.name.as_str()) {
                let grants_all = match &skill.permissions {
                    None => true,
                    Some(perms) => perms.tools.len() == 0,
                };
                if grants_all {
                    let mut star: Vec<String> = Vec::new();
                    star.push(String::from_str("*"));
                    proof {
                        assert(skill_grants_all(skills@[i as int], self.approved_skills));
                    }
                    return star;
                }
            }
        }
        proof {
            if some_skill_grants_all(skills@, self.approved_skills) {
                let w = choose|w: int|
                    0 <= w < skills@.len() && #[trigger] skill_grants_all(
                        skills@[w],
                        self.approved_skills,
                    );
                assert(false);
            }
        }
        // Second pass: the union of the declared tools.
        let mut allowed: Vec<String> = Vec::new();
        for i in 0..n
            invariant
                n == skills@.len(),
                forall|k: int|
                    0 <= k < allowed@.len() ==> granted_by_some(
                        skills@,
                        self.approved_skills,
                        (#[trigger] allowed@[k])@,
                    ),
                forall|j: int, t: Seq<char>|
                    0 <= j < i && #[trigger] skill_grants_tool(
                        skills@[j],
                        self.approved_skills,
                        t,
                    ) ==> crate::permissions::names_contain(allowed@, t),
                forall|a: int, b: int| 0 <= a < b < allowed@.len() ==> allowed@[a]@ != allowed@[b]@,
        {
            let skill = &skills[i];
            let approved_here = self.approved_skills.is_approved(skill.name.as_str());
            match &skill.permissions {
                Some(perms) => {
                    if approved_here {
                        let m = perms.tools.len();
                        for k in 0..m
                            invariant
                                n == skills@.len(),
                                i < n,
                                skill == &skills@[i as int],
                                skill.permissions matches Some(p) && p == perms,
                                m == perms.tools@.len(),
                                self.approved_skills.spec_approved(skill.name@),
                                forall|w: int|
                                    0 <= w < k ==> crate::permissions::names_contain(
                                        allowed@,
                                        (#[trigger] perms.tools@[w])@,
                                    ),
                                forall|w: int|
                                    0 <= w < allowed@.len() ==> granted_by_some(
                                        skills@,
                                        self.approved_skills,
                                        (#[trigger] allowed@[w])@,
                                    ),
                                forall|j: int, t: Seq<char>|
                                    0 <= j < i && #[trigger] skill_grants_tool(
                                        skills@[j],
                                        self.approved_skills,
                                        t,
                                    ) ==> crate::permissions::names_contain(allowed@, t),
                                forall|a: int, b: int|
                                    0 <= a < b < allowed@.len() ==> allowed@[a]@ != allowed@[b]@,
                        {
                            let tool = &perms.tools[k];
                            let mut present = false;
                            let cnt = allowed.len();
                            for w in 0..cnt
                                invariant
                                    cnt == allowed@.len(),
                                    k < perms.tools@.len(),
                                    tool == &perms.tools@[k as int],
                                    present ==> crate::permissions::names_contain(allowed@, tool@),
                                    !present ==> (forall|v: int|
                                        0 <= v < w ==> (#[trigger] allowed@[v])@ != tool@),
                            {
                                if text::str_eq(allowed[w].as_str(), tool.as_str()) {
                                    present = true;
                                }
                            }
                            let ghost before = allowed@;
                            if !present {
                                allowed.push(tool.clone());
                                proof {
                                    assert(allowed@[before.len() as int]@ == perms.tools@[k as int]@);
                                    assert(skill_grants_tool(
                                        skills@[i as int],
                                        self.approved_skills,
                                        allowed@[before.len() as int]@,
                                    ));
                                    assert(granted_by_some(
                                        skills@,
                                        self.approved_skills,
                                        allowed@[before.len() as int]@,
                                    ));
                                    assert forall|w: int|
                                        0 <= w < allowed@.len() implies granted_by_some(
                                        skills@,
                                        self.approved_skills,
                                        (#[trigger] allowed@[w])@,
                                    ) by {
                                        if w < before.len() {
                                            assert(allowed@[w] == before[w]);
                                        }
                                    }
                                    assert forall|j: int, t: Seq<char>|
                                        0 <= j < i && #[trigger] skill_grants_tool(
                                            skills@[j],
                                            self.approved_skills,
                                            t,
                                        ) implies crate::permissions::names_contain(
                                        allowed@,
                                        t,
                                    ) by {
                                        assert(crate::permissions::names_contain(before, t));
                                        let v = choose|v: int|
                                            0 <= v < before.len() && before[v]@ == t;
                                        assert(allowed@[v]@ == t);
                                    }
                                    assert forall|w: int|
                                        0 <= w < k + 1 implies crate::permissions::names_contain(
                                        allowed@,
                                        (#[trigger] perms.tools@[w])@,
                                    ) by {
                                        if w < k {
                                            assert(crate::permissions::names_contain(
                                                before,
                                                perms.tools@[w]@,
                                            ));
                                            let v = choose|v: int|
                                                0 <= v < before.len() && before[v]@
                                                    == perms.tools@[w]@;
                                            assert(allowed@[v]@ == perms.tools@[w]@);
                                        } else {
                                            assert(allowed@[before.len() as int]@
                                                == perms.tools@[w]@);
                                        }
                                    }
                                }
                            }
                        }
                        proof {
                            assert forall|j: int, t: Seq<char>|
                                0 <= j < i + 1 && #[trigger] skill_grants_tool(
                                    skills@[j],
                                    self.approved_skills,
                                    t,
                                ) implies crate::permissions::names_contain(allowed@, t) by {
                                if j == i as int {
                                    let w = choose|w: int|
                                        0 <= w < perms.tools@.len() && (
                                        #[trigger] perms.tools@[w])@ == t;
                                    assert(crate::permissions::names_contain(
                                        allowed@,
                                        perms.tools@[w]@,
                                    ));
                                }
                            }
                        }
                    } else {
                        proof {
                            assert forall|j: int, t: Seq<char>|
                                0 <= j < i + 1 && #[trigger] skill_grants_tool(
                                    skills@[j],
                                    self.approved_skills,
                                    t,
                                ) implies crate::permissions::names_contain(allowed@, t) by {}
                        }
                    }
                },
                None => {
                    proof {
                        assert forall|j: int, t: Seq<char>|
                            0 <= j < i + 1 && #[trigger] skill_grants_tool(
                                skills@[j],
                                self.approved_skills,
                                t,
                            ) implies crate::permissions::names_contain(allowed@, t) by {}
                    }
                },
            }
        }
        if allowed.len() == 0 {
            proof {
                if any_tool_granted(skills@, self.approved_skills) {
                    let t = choose|t: Seq<char>|
                        #[trigger] granted_by_some(skills@, self.approved_skills, t);
                    let i = choose|i: int|
                        0 <= i < skills@.len() && #[trigger] skill_grants_tool(
                            skills@[i],
                            self.approved_skills,
                            t,
                        );
                    assert(crate::permissions::names_contain(allowed@, t));
                    assert(false);
                }
            }
            return Self::safe_default_tools();
        }
        proof {
            assert(granted_by_some(skills@, self.approved_skills, allowed@[0]@));
            assert(any_tool_granted(skills@, self.approved_skills));
        }
        allowed
    }

    /// The texts of the approved, always-on, available skills, exactly and
    /// in catalog order.
    pub fn always_on_skill_texts(&self, skills: &Vec<Skill>) -> (r: Vec<String>)
        ensures
            r@.len() == spec_always_on_texts(skills@, self.approved_skills).len(),
            forall|k: int|
                0 <= k < r@.len() ==> (#[trigger] r@[k])@ == spec_always_on_texts(
                    skills@,
                    self.approved_skills,
                )[k],
    {
        let n = skills.len();
        let mut out: Vec<String> = Vec::new();
        proof {
            assert(skills@.subrange(0, 0) =~= Seq::<Skill>::empty());
            assert(spec_always_on_texts(Seq::<Skill>::empty(), self.approved_skills)
                =~= Seq::<Seq<char>>::empty());
        }
        for i in 0..n
            invariant
                n == skills@.len(),
                out@.len() == spec_always_on_texts(
                    skills@.subrange(0, i as int),
                    self.approved_skills,
                ).len(),
                forall|k: int|
                    0 <= k < out@.len() ==> (#[trigger] out@[k])@ == spec_always_on_texts(
                        skills@.subrange(0, i as int),
                        self.approved_skills,
                    )[k],
        {
            let skill = &skills[i];
            let ghost before = out@;
            let ghost f_before = spec_always_on_texts(
                skills@.subrange(0, i as int),
                self.approved_skills,
            );
            if self.approved_skills.is_approved(skill.name.as_str()) && skill.always
                && skill.available {
                let mut t: Vec<char> = text::str_chars("Skill: ");
                let name = text::str_chars(skill.name.as_str());
                text::push_all(&mut t, &name);
                t.push('\n');
                let content = text::str_chars(skill.content.as_str());
                text::push_all(&mut t, &content);
                out.push(text::chars_to_string(&t));
                proof {
                    assert(out@.last()@ =~= "Skill: "@ + skills@[i as int].name@ + seq!['\n']
                        + skills@[i as int].content@);
                }
            }
            proof {
                lemma_always_on_texts_push(
                    skills@.subrange(0, i as int),
                    self.approved_skills,
                    skills@[i as int],
                );
                assert(skills@.subrange(0, i as int).push(skills@[i as int]) =~= skills@.subrange(
                    0,
                    i + 1,
                ));
                let f_after = spec_always_on_texts(
                    skills@.subrange(0, i + 1),
                    self.approved_skills,
                );
                assert forall|k: int| 0 <= k < out@.len() implies (#[trigger] out@[k])@
                    == f_after[k] by {
                    if k < before.len() {
                        assert(out@[k] == before[k]);
                        assert(f_after[k] == f_before[k]);
                    }
                }
            }
        }
        proof {
            assert(skills@.subrange(0, n as int) =~= skills@);
        }
        out
    }

    /// The identity preamble followed by each workspace context file under
    /// its own banner.
    pub fn build_system_prompt(&self, context_files: &Vec<(String, String)>) -> (r: String)
        ensures
            r@ == "You are PocketClaw, an intelligent AI assistant.\nYou must answer the user's request accurately and concisely.\nIf you need to perform actions, use the provided tools.\n"@
                + file_sections(context_files@),
    {
        let mut v = text::str_chars(
            "You are PocketClaw, an intelligent AI assistant.\nYou must answer the user's request accurately and concisely.\nIf you need to perform actions, use the provided tools.\n",
        );
        let n = context_files.len();
        let ghost base = v@;
        for i in 0..n
            invariant
                n == context_files@.len(),
                v@ == base + file_sections(context_files@.subrange(0, i as int)),
        {
            let ghost before = v@;
            let head = text::str_chars("\n--- ");
            text::push_all(&mut v, &head);
            let name = text::str_chars(context_files[i].0.as_str());
            text::push_all(&mut v, &name);
            let mid = text::str_chars(" ---\n");
            text::push_all(&mut v, &mid);
            let content = text::str_chars(context_files[i].1.as_str());
            text::push_all(&mut v, &content);
            v.push('\n');
            proof {
                lemma_file_sections_push(
                    context_files@.subrange(0, i as int),
                    context_files@[i as int],
                );
                assert(context_files@.subrange(0, i as int).push(context_files@[i as int])
                    =~= context_files@.subrange(0, i + 1));
                assert(v@ =~= base + file_sections(context_files@.subrange(0, i + 1)));
            }
        }
        proof {
            assert(context_files@.subrange(0, n as int) =~= context_files@);
        }
        text::chars_to_string(&v)
    }

    /// Assemble the ordered prompt list: the system prompt, the summary when
    /// one exists, the always-on skill texts, the history behind its sliding
    /// window (with one notice naming how many older messages were left
    /// out), and the current input last.
    pub fn build(
        &self,
        system_prompt: &str,
        skill_texts: &Vec<String>,
        history: &Vec<Message>,
        summary: Option<&String>,
        current_message: &str,
    ) -> (r: Vec<Message>)
        ensures
            ({
                let hist = history@.len() as int;
                let pre = 1 + (if summary is Some {
                    1int
                } else {
                    0int
                }) + skill_texts@.len();
                &&& r@.len() == pre + omitted_notice_count(hist) + included_history_count(hist)
                    + 1
                &&& r@[0].role is System
                &&& r@[0].content@ == system_prompt@
                &&& (summary matches Some(s) ==> r@[1].role is System && r@[1].content@
                    == "Previous conversation summary: "@ + s@)
                &&& (forall|k: int|
                    0 <= k < skill_texts@.len() ==> ({
                        let m = r@[1 + (if summary is Some {
                            1int
                        } else {
                            0int
                        }) + k];
                        m.role is System && m.content@ == (#[trigger] skill_texts@[k])@
                    }))
                &&& (hist > MAX_HISTORY_MESSAGES ==> r@[pre].role is System && r@[pre].content@
                    == "["@ + text::dec_of((hist - MAX_HISTORY_MESSAGES) as nat)
                    + " older messages omitted — see summary above for context]"@)
                &&& (forall|j: int|
                    hist - included_history_count(hist) <= j < hist ==> message_like(
                        r@[pre + omitted_notice_count(hist) + (j - (hist
                            - included_history_count(hist)))],
                        #[trigger] history@[j],
                    ))
                &&& r@.last().role is User
                &&& r@.last().content@ == current_message@
            }),
    {
        let mut messages: Vec<Message> = Vec::new();
        messages.push(Message::new("system", "global", Role::System, system_prompt));
        match summary {
            Some(s) => {
                let mut t = text::str_chars("Previous conversation summary: ");
                let sc = text::str_chars(s.as_str());
                text::push_all(&mut t, &sc);
                let joined = text::chars_to_string(&t);
                messages.push(Message::new("system", "global", Role::System, joined.as_str()));
            },
            None => {
            },
        }
        let ns = skill_texts.len();
        let ghost pre0 = messages@.len() as int;
        for k in 0..ns
            invariant
                ns == skill_texts@.len(),
                messages@.len() == pre0 + k,
                pre0 == 1 + (if summary is Some {
                    1int
                } else {
                    0int
                }),
                messages@[0].role is System && messages@[0].content@ == system_prompt@,
                summary matches Some(s) ==> messages@[1].role is System && messages@[1].content@
                    == "Previous conversation summary: "@ + s@,
                forall|w: int|
                    0 <= w < k ==> (#[trigger] messages@[pre0 + w]).role is System
                        && messages@[pre0 + w].content@ == skill_texts@[w]@,
        {
            messages.push(
                Message::new("system", "global", Role::System, skill_texts[k].as_str()),
            );
        }
        let hist = history.len();
        let ghost pre = messages@.len() as int;
        let start: usize = if hist > MAX_HISTORY_MESSAGES {
            let omitted = hist - MAX_HISTORY_MESSAGES;
            let mut t = text::str_chars("[");
            let digits = text::u64_to_dec_chars(omitted as u64);
            text::push_all(&mut t, &digits);
            let tail = text::str_chars(" older messages omitted — see summary above for context]");
            text::push_all(&mut t, &tail);
            let joined = text::chars_to_string(&t);
            messages.push(Message::new("system", "global", Role::System, joined.as_str()));
            omitted
        } else {
            0
        };
        let ghost mid = messages@.len() as int;
        let mut k = start;
        while k < hist
            invariant
                hist == history@.len(),
                ns == skill_texts@.len(),
                pre0 == 1 + (if summary is Some {
                    1int
                } else {
                    0int
                }),
                pre == pre0 + ns,
                mid == pre + omitted_notice_count(hist as int),
                start as int == hist - included_history_count(hist as int),
                start <= k <= hist,
                messages@.len() == mid + (k - start),
                messages@[0].role is System && messages@[0].content@ == system_prompt@,
                summary matches Some(s) ==> messages@[1].role is System && messages@[1].content@
                    == "Previous conversation summary: "@ + s@,
                forall|w: int|
                    0 <= w < ns ==> (#[trigger] messages@[pre0 + w]).role is System
                        && messages@[pre0 + w].content@ == skill_texts@[w]@,
                hist > MAX_HISTORY_MESSAGES ==> messages@[pre].role is System
                    && messages@[pre].content@ == "["@ + text::dec_of(
                    (hist - MAX_HISTORY_MESSAGES) as nat,
                ) + " older messages omitted — see summary above for context]"@,
                forall|w: int|
                    start <= w < k ==> message_like(
                        #[trigger] messages@[mid + (w - start)],
                        history@[w],
                    ),
            decreases hist - k,
        {
            messages.push(history[k].clone());
            k = k + 1;
        }
        let ghost final_pre = 1 + (if summary is Some {
            1int
        } else {
            0int
        }) + skill_texts@.len();
        let ghost body = messages@;
        messages.push(Message::new("cli", "current", Role::User, current_message));
        proof {
            let h = history@.len() as int;
            assert(final_pre == pre);
            assert(messages@.len() == pre + omitted_notice_count(h) + included_history_count(h)
                + 1);
            assert(messages@[0].role is System && messages@[0].content@ == system_prompt@);
            assert(summary matches Some(s) ==> messages@[1].role is System
                && messages@[1].content@ == "Previous conversation summary: "@ + s@);
            assert forall|k: int| 0 <= k < skill_texts@.len() implies ({
                let m = messages@[pre0 + k];
                m.role is System && m.content@ == (#[trigger] skill_texts@[k])@
            }) by {}
            assert(h > MAX_HISTORY_MESSAGES ==> messages@[pre].role is System
                && messages@[pre].content@ == "["@ + text::dec_of((h - MAX_HISTORY_MESSAGES) as nat)
                + " older messages omitted — see summary above for context]"@);
            assert forall|j: int|
                h - included_history_count(h) <= j < h implies message_like(
                messages@[pre + omitted_notice_count(h) + (j - (h - included_history_count(h)))],
                #[trigger] history@[j],
            ) by {
                let k = j - start as int;
                assert(message_like(body[mid + (j - start as int)], history@[j]));
                assert(messages@[mid + k] == body[mid + k]);
            }
            assert(messages@.last().role is User && messages@.last().content@
                == current_message@);
        }
        messages
    }
}

/// One banner-and-content section per context file, in order.
pub open spec fn file_sections(files: Seq<(String, String)>) -> Seq<char>
    decreases files.len(),
{
    if files.len() == 0 {
        Seq::empty()
    } else {
        file_sections(files.drop_last()) + "\n--- "@ + files.last().0@ + " ---\n"@
            + files.last().1@ + seq!['\n']
    }
}

proof fn lemma_file_sections_push(files: Seq<(String, String)>, f: (String, String))
    ensures
        file_sections(files.push(f)) == file_sections(files) + "\n--- "@ + f.0@ + " ---\n"@ + f.1@
            + seq!['\n'],
{
    assert(files.push(f).drop_last() =~= files);
    assert(files.push(f).last() == f);
}

} // verus!
