//! Skill data and the skill-file front matter grammar. Scanning the skills
//! directory and probing for required binaries happen outside the library;
//! the parsed skill data and the permission blocks live here.

use vstd::prelude::*;

use crate::text;

verus! {

/// What a skill needs before it is available.
#[derive(Debug, Clone)]
pub struct SkillRequirements {
    /// Binaries that must be on the PATH.
    pub bins: Vec<String>,
    /// Environment variables that must be set.
    pub env: Vec<String>,
}

/// Permission manifest for a skill — declares what the skill is allowed to
/// do.
#[derive(Debug, Clone)]
pub struct SkillPermissions {
    /// Tool names this skill is allowed to use.
    pub tools: Vec<String>,
    /// File system scope: `workspace` (default) or `system`.
    pub fs_scope: String,
    /// Allowed network domains for web tools.
    pub network_domains: Vec<String>,
    /// Override max exec timeout for this skill (seconds).
    pub max_exec_timeout: Option<u64>,
}

/// The default file-system scope of a skill.
pub fn default_fs_scope() -> (r: String)
    ensures
        r@ == "workspace"@,
{
    String::from_str("workspace")
}

/// The front-matter metadata of a legacy skill file.
#[derive(Debug, Clone)]
pub struct SkillMetadata {
    pub name: String,
    pub description: String,
    pub always: bool,
    pub requires: Option<SkillRequirements>,
    pub permissions: Option<SkillPermissions>,
}

/// The metadata table of a skill manifest.
#[derive(Debug, Clone)]
pub struct ManifestMetadata {
    pub name: String,
    pub version: String,
    pub description: String,
    pub always: bool,
}

/// A skill manifest file's contents.
#[derive(Debug, Clone)]
pub struct SkillManifest {
    pub metadata: ManifestMetadata,
    pub permissions: Option<SkillPermissions>,
    pub requirements: Option<SkillRequirements>,
}

/// A loaded skill.
#[derive(Debug, Clone)]
pub struct Skill {
    pub name: String,
    pub description: String,
    pub content: String,
    pub requirements: Option<SkillRequirements>,
    pub permissions: Option<SkillPermissions>,
    pub always: bool,
    pub available: bool,
    pub missing_requirements: Vec<String>,
    pub version: Option<String>,
}

/// Finds skills under a workspace. The directory walking happens outside
/// the library; this holds the root it starts from.
#[derive(Debug, Clone)]
pub struct SkillsLoader {
    pub workspace_path: String,
}

impl SkillsLoader {
    pub fn new(workspace_path: String) -> (r: Self)
        ensures
            r.workspace_path@ == workspace_path@,
    {
        SkillsLoader { workspace_path }
    }
}

/// The content opens with a front-matter fence and the closing fence stands
/// at `k`: `---\n` first, then the first `\n---\n` at index `k`.
pub open spec fn frontmatter_closes_at(s: Seq<char>, k: int) -> bool {
    &&& s.len() >= 4
    &&& s.subrange(0, 4) == "---\n"@
    &&& 4 <= k
    &&& k + 5 <= s.len()
    &&& s.subrange(k, k + 5) == "\n---\n"@
    &&& forall|j: int| 4 <= j < k ==> #[trigger] s.subrange(j, j + 5) != "\n---\n"@
}

/// Split a skill file into its front matter and body: with an opening
/// `---` fence and a closing one, the text between them and the rest;
/// otherwise an empty object and the whole content.
pub fn extract_frontmatter(content: &str) -> (r: (String, String))
    ensures
        (exists|k: int| frontmatter_closes_at(content@, k)) ==> (exists|k: int|
            {
                &&& #[trigger] frontmatter_closes_at(content@, k)
                &&& r.0@ == content@.subrange(4, k)
                &&& r.1@ == content@.subrange(k + 5, content@.len() as int)
            }),
        !(exists|k: int| frontmatter_closes_at(content@, k)) ==> (r.0@ == "{}"@ && r.1@
            == content@),
{
    let chars = text::str_chars(content);
    let fence = text::str_chars("---\n");
    proof {
        reveal_strlit("---\n");
        reveal_strlit("\n---\n");
    }
    if !text::starts_with_chars(&chars, &fence) {
        proof {
            if exists|k: int| frontmatter_closes_at(content@, k) {
                let k = choose|k: int| frontmatter_closes_at(content@, k);
                assert(false);
            }
        }
        return (String::from_str("{}"), String::from_str(content));
    }
    let delim = text::str_chars("\n---\n");
    let n = chars.len();
    if n >= 9 {
        let mut k: usize = 4;
        while k <= n - 5
            invariant
                n == chars@.len(),
                chars@ == content@,
                delim@ == "\n---\n"@,
                9 <= n,
                content@.subrange(0, 4) == "---\n"@,
                4 <= k,
                forall|j: int| 4 <= j < k ==> #[trigger] content@.subrange(j, j + 5) != "\n---\n"@,
            decreases n - k,
        {
            let window = text::subrange_chars(&chars, k, k + 5);
            if text::chars_eq(&window, &delim) {
                let fm = text::subrange_chars(&chars, 4, k);
                let body = text::subrange_chars(&chars, k + 5, n);
                proof {
                    assert(content@.subrange(0, 4) == "---\n"@);
                    assert(content@.subrange(k as int, k as int + 5) == "\n---\n"@);
                    assert(frontmatter_closes_at(content@, k as int));
                }
                return (text::chars_to_string(&fm), text::chars_to_string(&body));
            }
            k = k + 1;
        }
        proof {
            if exists|w: int| frontmatter_closes_at(content@, w) {
                let w = choose|w: int| frontmatter_closes_at(content@, w);
                assert(content@.subrange(w, w + 5) == "\n---\n"@);
                assert(false);
            }
        }
    } else {
        proof {
            if exists|w: int| frontmatter_closes_at(content@, w) {
                let w = choose|w: int| frontmatter_closes_at(content@, w);
                assert(false);
            }
        }
    }
    (String::from_str("{}"), String::from_str(content))
}

} // verus!
