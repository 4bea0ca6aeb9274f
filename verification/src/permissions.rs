//! Skill approval: which skills the user has allowed to run, and the
//! default-deny check of a skill's tool access.

use vstd::prelude::*;

use crate::text;

verus! {

/// Does `names` hold `name`?
pub open spec fn names_contain(names: Seq<String>, name: Seq<char>) -> bool {
    exists|i: int| 0 <= i < names.len() && names[i]@ == name
}

/// The set of skills the user has approved. Default-deny: absence means not
/// approved.
#[derive(Debug, Clone)]
pub struct ApprovedSkills {
    pub approved: Vec<String>,
}

impl ApprovedSkills {
    /// Each approved name is recorded once.
    pub open spec fn wf(&self) -> bool {
        forall|i: int, j: int|
            0 <= i < j < self.approved@.len() ==> self.approved@[i]@ != self.approved@[j]@
    }

    pub open spec fn spec_approved(&self, name: Seq<char>) -> bool {
        names_contain(self.approved@, name)
    }

    /// The empty approval set: nothing is approved.
    pub fn new() -> (r: Self)
        ensures
            r.wf(),
            forall|n: Seq<char>| !r.spec_approved(n),
    {
        ApprovedSkills { approved: Vec::new() }
    }

    /// Rebuild the set from stored names, keeping the first occurrence of
    /// each.
    pub fn from_names(names: Vec<String>) -> (r: Self)
        ensures
            r.wf(),
            forall|n: Seq<char>| r.spec_approved(n) == names_contain(names@, n),
    {
        let mut r = ApprovedSkills { approved: Vec::new() };
        let count = names.len();
        for i in 0..count
            invariant
                count == names.len(),
                r.wf(),
                forall|n: Seq<char>|
                    r.spec_approved(n) == names_contain(names@.subrange(0, i as int), n),
        {
            let ghost before = r.approved@;
            r.approve(names[i].clone());
            proof {
                assert forall|n: Seq<char>|
                    r.spec_approved(n) == names_contain(
                        names@.subrange(0, i + 1),
                        n,
                    ) by {
                    if names_contain(names@.subrange(0, i + 1), n) {
                        let w = choose|w: int|
                            0 <= w < i + 1 && (#[trigger] names@.subrange(0, i + 1)[w])@ == n;
                        if w < i {
                            assert(names@.subrange(0, i as int)[w]@ == n);
                        }
                    }
                    if r.spec_approved(n) && n != names@[i as int]@ {
                        assert(names_contain(before, n));
                        let w = choose|w: int| 0 <= w < i && names@.subrange(0, i as int)[w]@ == n;
                        assert(names@.subrange(0, i + 1)[w]@ == n);
                    }
                    if n == names@[i as int]@ {
                        assert(names@.subrange(0, i + 1)[i as int]@ == n);
                    }
                }
            }
        }
        proof {
            assert(names@.subrange(0, count as int) =~= names@);
        }
        r
    }

    /// The recorded names, for persisting.
    pub fn names(&self) -> (r: Vec<String>)
        ensures
            r@.len() == self.approved@.len(),
            forall|i: int| 0 <= i < r@.len() ==> r@[i]@ == self.approved@[i]@,
    {
        let mut out: Vec<String> = Vec::new();
        let count = self.approved.len();
        for i in 0..count
            invariant
                count == self.approved.len(),
                out@.len() == i,
                forall|j: int| 0 <= j < i ==> out@[j]@ == self.approved@[j]@,
        {
            out.push(self.approved[i].clone());
        }
        out
    }

    /// Check if a skill is approved.
    pub fn is_approved(&self, skill_name: &str) -> (r: bool)
        ensures
            r == self.spec_approved(skill_name@),
    {
        let count = self.approved.len();
        for i in 0..count
            invariant
                count == self.approved.len(),
                forall|j: int| 0 <= j < i ==> self.approved@[j]@ != skill_name@,
        {
            if text::str_eq(self.approved[i].as_str(), skill_name) {
                return true;
            }
        }
        false
    }

    /// Approve a skill (after user consent).
    pub fn approve(&mut self, skill_name: String)
        requires
            old(self).wf(),
        ensures
            final(self).wf(),
            final(self).spec_approved(skill_name@),
            forall|n: Seq<char>|
                n != skill_name@ ==> final(self).spec_approved(n) == old(self).spec_approved(n),
    {
        if self.is_approved(skill_name.as_str()) {
            return;
        }
        let ghost before = self.approved@;
        self.approved.push(skill_name);
        proof {
            assert(self.approved@[before.len() as int]@ == skill_name@);
            assert forall|n: Seq<char>|
                n != skill_name@ && names_contain(self.approved@, n) implies names_contain(
                before,
                n,
            ) by {
                let w = choose|w: int| 0 <= w < self.approved@.len() && self.approved@[w]@ == n;
                assert(before[w]@ == n);
            }
            assert forall|n: Seq<char>| names_contain(before, n) implies names_contain(
                self.approved@,
                n,
            ) by {
                let w = choose|w: int| 0 <= w < before.len() && before[w]@ == n;
                assert(self.approved@[w]@ == n);
            }
        }
    }

    /// Revoke approval for a skill.
    pub fn revoke(&mut self, skill_name: &str)
        requires
            old(self).wf(),
        ensures
            final(self).wf(),
            !final(self).spec_approved(skill_name@),
            forall|n: Seq<char>|
                n != skill_name@ ==> final(self).spec_approved(n) == old(self).spec_approved(n),
    {
        let mut kept: Vec<String> = Vec::new();
        let count = self.approved.len();
        for i in 0..count
            invariant
                count == self.approved.len(),
                old(self).wf(),
                self.approved@ == old(self).approved@,
                forall|n: Seq<char>|
                    names_contain(kept@, n) == (n != skill_name@ && names_contain(
                        self.approved@.subrange(0, i as int),
                        n,
                    )),
                forall|a: int, b: int| 0 <= a < b < kept@.len() ==> kept@[a]@ != kept@[b]@,
        {
            let ghost kept_before = kept@;
            if !text::str_eq(self.approved[i].as_str(), skill_name) {
                proof {
                    if names_contain(kept@, self.approved@[i as int]@) {
                        let w = choose|w: int|
                            0 <= w < i && self.approved@.subrange(0, i as int)[w]@
                                == self.approved@[i as int]@;
                        assert(false);
                    }
                }
                kept.push(self.approved[i].clone());
            }
            proof {
                assert forall|n: Seq<char>|
                    names_contain(kept@, n) == (n != skill_name@ && names_contain(
                        self.approved@.subrange(0, i + 1),
                        n,
                    )) by {
                    if names_contain(kept@, n) {
                        let w = choose|w: int| 0 <= w < kept@.len() && kept@[w]@ == n;
                        if w < kept_before.len() {
                            assert(names_contain(kept_before, n));
                            let v = choose|v: int|
                                0 <= v < i && self.approved@.subrange(0, i as int)[v]@ == n;
                            assert(self.approved@.subrange(0, i + 1)[v]@ == n);
                        } else {
                            assert(self.approved@.subrange(0, i + 1)[i as int]@ == n);
                        }
                    }
                    if n != skill_name@ && names_contain(self.approved@.subrange(0, i + 1), n) {
                        let w = choose|w: int|
                            0 <= w < i + 1 && (#[trigger] self.approved@.subrange(0, i + 1)[w])@
                                == n;
                        if w < i {
                            assert(self.approved@.subrange(0, i as int)[w]@ == n);
                            assert(names_contain(kept_before, n));
                            let v = choose|v: int| 0 <= v < kept_before.len() && kept_before[v]@ == n;
                            assert(kept@[v]@ == n);
                        } else {
                            assert(self.approved@[i as int]@ == n);
                            assert(kept@[kept@.len() - 1]@ == n);
                        }
                    }
                }
            }
        }
        proof {
            assert(self.approved@.subrange(0, count as int) =~= self.approved@);
        }
        self.approved = kept;
    }
}

/// Result of checking a skill's permissions against a requested tool.
#[derive(Debug)]
pub enum PermissionCheck {
    /// Tool is allowed by the skill's permissions.
    Allowed,
    /// Skill not approved by user (default-deny).
    SkillNotApproved { skill_name: String },
    /// Tool not in the skill's allowed tool list.
    ToolNotAllowed { skill_name: String, tool: String },
}

/// Check if a skill is allowed to use a specific tool. The skill must be
/// approved; an approved skill with an empty tool list may use every tool.
pub fn check_skill_permission(
    approved: &ApprovedSkills,
    skill_name: &str,
    allowed_tools: &Vec<String>,
    requested_tool: &str,
) -> (r: PermissionCheck)
    ensures
        !approved.spec_approved(skill_name@) ==> (r matches PermissionCheck::SkillNotApproved {
            skill_name: n } && n@ == skill_name@),
        approved.spec_approved(skill_name@) && allowed_tools@.len() > 0 && !names_contain(
            allowed_tools@,
            requested_tool@,
        ) ==> (r matches PermissionCheck::ToolNotAllowed { skill_name: n, tool: t } && n@
            == skill_name@ && t@ == requested_tool@),
        approved.spec_approved(skill_name@) && (allowed_tools@.len() == 0 || names_contain(
            allowed_tools@,
            requested_tool@,
        )) ==> r is Allowed,
{
    if !approved.is_approved(skill_name) {
        return PermissionCheck::SkillNotApproved { skill_name: String::from_str(skill_name) };
    }
    if allowed_tools.len() > 0 {
        let mut found = false;
        let count = allowed_tools.len();
        for i in 0..count
            invariant
                count == allowed_tools.len(),
                found == names_contain(allowed_tools@.subrange(0, i as int), requested_tool@),
        {
            let ghost prefix = allowed_tools@.subrange(0, i as int);
            if text::str_eq(allowed_tools[i].as_str(), requested_tool) {
                found = true;
            }
            proof {
                if found {
                    if allowed_tools@[i as int]@ == requested_tool@ {
                        assert(allowed_tools@.subrange(0, i + 1)[i as int]@ == requested_tool@);
                    } else {
                        let w = choose|w: int| 0 <= w < i && prefix[w]@ == requested_tool@;
                        assert(allowed_tools@.subrange(0, i + 1)[w]@ == requested_tool@);
                    }
                } else {
                    assert forall|w: int| 0 <= w < i + 1 implies (#[trigger] allowed_tools@.subrange(
                        0,
                        i + 1,
                    )[w])@ != requested_tool@ by {
                        if w < i {
                            assert(prefix[w]@ == allowed_tools@[w]@);
                        }
                    }
                }
            }
        }
        proof {
            assert(allowed_tools@.subrange(0, count as int) =~= allowed_tools@);
        }
        if !found {
            return PermissionCheck::ToolNotAllowed {
                skill_name: String::from_str(skill_name),
                tool: String::from_str(requested_tool),
            };
        }
    }
    PermissionCheck::Allowed
}

} // verus!
