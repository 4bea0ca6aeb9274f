//! Sandbox rules: path confinement, SSRF address filtering, and output
//! truncation. Filesystem resolution (canonicalization, existence probing)
//! happens outside the library; the functions here take the resolved paths
//! as plain strings and decide.

use vstd::prelude::*;

use crate::errors::ToolError;
use crate::text;

verus! {

/// Central sandbox configuration for all tools.
#[derive(Debug, Clone)]
pub struct SandboxConfig {
    /// All file operations are confined to this directory.
    pub workspace_path: String,
    /// Maximum execution time for shell commands (seconds).
    pub exec_timeout_secs: u64,
    /// Maximum combined stdout+stderr size (bytes).
    pub max_output_bytes: usize,
    /// Whether exec_cmd is allowed at all.
    pub exec_enabled: bool,
    /// Allowed domain suffixes for web tools. Empty = allow all.
    pub network_allowlist: Vec<String>,
    /// Max number of child processes.
    pub max_child_processes: Option<u64>,
    /// Max number of open file descriptors.
    pub max_open_files: Option<u64>,
    /// Max CPU time in seconds.
    pub cpu_time_limit_secs: Option<u64>,
}

impl Default for SandboxConfig {
    fn default() -> (r: Self)
        ensures
            r.workspace_path@ == "workspace"@,
            r.exec_timeout_secs == 30,
            r.max_output_bytes == 65536,
            r.exec_enabled,
            r.network_allowlist@.len() == 0,
            r.max_child_processes == Some(50u64),
            r.max_open_files == Some(1024u64),
            r.cpu_time_limit_secs == Some(30u64),
    {
        SandboxConfig {
            workspace_path: String::from_str("workspace"),
            exec_timeout_secs: 30,
            max_output_bytes: 65536,
            exec_enabled: true,
            network_allowlist: Vec::new(),
            max_child_processes: Some(50),
            max_open_files: Some(1024),
            cpu_time_limit_secs: Some(30),
        }
    }
}

/// The notice appended when output had to be cut off.
pub open spec fn truncation_notice(max: nat) -> Seq<char> {
    "\n\n--- OUTPUT TRUNCATED ("@ + text::dec_of(max) + "B limit) ---"@
}

/// `s` unchanged when it fits, else its first `max` characters plus the
/// truncation notice.
pub open spec fn truncated_output(s: Seq<char>, max: nat) -> Seq<char> {
    if s.len() <= max {
        s
    } else {
        s.subrange(0, max as int) + truncation_notice(max)
    }
}

/// Truncate a string to at most `max_bytes` characters, appending a notice
/// naming the limit when anything was cut off.
pub fn truncate_output(output: &str, max_bytes: usize) -> (r: String)
    ensures
        r@ == truncated_output(output@, max_bytes as nat),
{
    let chars = text::str_chars(output);
    if chars.len() <= max_bytes {
        return text::chars_to_string(&chars);
    }
    let mut v = text::subrange_chars(&chars, 0, max_bytes);
    let head = text::str_chars("\n\n--- OUTPUT TRUNCATED (");
    text::push_all(&mut v, &head);
    let digits = text::u64_to_dec_chars(max_bytes as u64);
    assert(max_bytes as u64 as nat == max_bytes as nat);
    text::push_all(&mut v, &digits);
    let tail = text::str_chars("B limit) ---");
    text::push_all(&mut v, &tail);
    assert(v@ =~= truncated_output(output@, max_bytes as nat));
    text::chars_to_string(&v)
}

/// Truncating is idempotent: cutting an already-truncated string at the same
/// limit changes nothing.
pub proof fn lemma_truncate_output_idempotent(s: Seq<char>, max: nat)
    ensures
        truncated_output(truncated_output(s, max), max) == truncated_output(s, max),
{
    if s.len() <= max {
    } else {
        let t = truncated_output(s, max);
        reveal_strlit("\n\n--- OUTPUT TRUNCATED (");
        reveal_strlit("B limit) ---");
        lemma_dec_of_len(max);
        assert(t.len() > max);
        assert(t.subrange(0, max as int) =~= s.subrange(0, max as int));
        assert(truncated_output(t, max) =~= t);
    }
}

proof fn lemma_dec_of_len(n: nat)
    ensures
        text::dec_of(n).len() >= 1,
    decreases n,
{
    if n >= 10 {
        lemma_dec_of_len(n / 10);
    }
}

/// An IP address, as the SSRF filter reads it: four octets or eight 16-bit
/// segments.
#[derive(Debug, Clone, PartialEq, Eq, Structural)]
pub enum IpAddress {
    V4 { a: u8, b: u8, c: u8, d: u8 },
    V6 { s0: u16, s1: u16, s2: u16, s3: u16, s4: u16, s5: u16, s6: u16, s7: u16 },
}

/// The RFC 1918 private blocks: 10/8, 172.16/12, 192.168/16.
pub open spec fn in_rfc1918(ip: IpAddress) -> bool {
    match ip {
        IpAddress::V4 { a, b, c, d } => a == 10 || (a == 172 && 16 <= b && b < 32) || (a == 192
            && b == 168),
        IpAddress::V6 { .. } => false,
    }
}

/// Loopback: 127/8 or ::1.
pub open spec fn in_loopback(ip: IpAddress) -> bool {
    match ip {
        IpAddress::V4 { a, .. } => a == 127,
        IpAddress::V6 { s0, s1, s2, s3, s4, s5, s6, s7 } => s0 == 0 && s1 == 0 && s2 == 0 && s3
            == 0 && s4 == 0 && s5 == 0 && s6 == 0 && s7 == 1,
    }
}

/// Link-local: 169.254/16 or fe80::/10.
pub open spec fn in_link_local(ip: IpAddress) -> bool {
    match ip {
        IpAddress::V4 { a, b, .. } => a == 169 && b == 254,
        IpAddress::V6 { s0, .. } => 0xfe80 <= s0 && s0 < 0xfec0,
    }
}

/// IPv6 unique-local addresses: fc00::/7.
pub open spec fn in_ula(ip: IpAddress) -> bool {
    match ip {
        IpAddress::V4 { .. } => false,
        IpAddress::V6 { s0, .. } => 0xfc00 <= s0 && s0 < 0xfe00,
    }
}

/// Every address the SSRF filter treats as private or reserved.
pub open spec fn spec_is_private_ip(ip: IpAddress) -> bool {
    match ip {
        IpAddress::V4 { a, b, c, d } => {
            ||| in_loopback(ip)
            ||| in_rfc1918(ip)
            ||| in_link_local(ip)  // includes the AWS metadata address
            ||| (a == 255 && b == 255 && c == 255 && d == 255)  // broadcast
            ||| (a == 0 && b == 0 && c == 0 && d == 0)  // unspecified
            ||| (a == 100 && 64 <= b && b < 128)  // CGNAT 100.64/10
        },
        IpAddress::V6 { s0, s1, s2, s3, s4, s5, s6, s7 } => {
            ||| in_loopback(ip)
            ||| (s0 == 0 && s1 == 0 && s2 == 0 && s3 == 0 && s4 == 0 && s5 == 0 && s6 == 0 && s7
                == 0)  // unspecified
            ||| in_ula(ip)
            ||| in_link_local(ip)
            ||| (s0 == 0 && s1 == 0 && s2 == 0 && s3 == 0 && s4 == 0 && s5 == 0xffff && s6
                == 0x7f00 && s7 == 1)  // v4-mapped loopback
        },
    }
}

/// Is the address in a private or reserved range (SSRF protection)?
pub fn is_private_ip(ip: &IpAddress) -> (r: bool)
    ensures
        r == spec_is_private_ip(*ip),
{
    match ip {
        IpAddress::V4 { a, b, c, d } => {
            let a = *a;
            let b = *b;
            let c = *c;
            let d = *d;
            a == 127 || a == 10 || (a == 172 && 16 <= b && b < 32) || (a == 192 && b == 168) || (a
                == 169 && b == 254) || (a == 255 && b == 255 && c == 255 && d == 255) || (a == 0
                && b == 0 && c == 0 && d == 0) || (a == 100 && 64 <= b && b < 128)
        },
        IpAddress::V6 { s0, s1, s2, s3, s4, s5, s6, s7 } => {
            let s0 = *s0;
            let s1 = *s1;
            let s2 = *s2;
            let s3 = *s3;
            let s4 = *s4;
            let s5 = *s5;
            let s6 = *s6;
            let s7 = *s7;
            let head_zero = s0 == 0 && s1 == 0 && s2 == 0 && s3 == 0 && s4 == 0;
            (head_zero && s5 == 0 && s6 == 0 && (s7 == 0 || s7 == 1)) || (0xfc00 <= s0 && s0
                < 0xfe00) || (0xfe80 <= s0 && s0 < 0xfec0) || (head_zero && s5 == 0xffff && s6
                == 0x7f00 && s7 == 1)
        },
    }
}

/// Every address in an RFC 1918, loopback, link-local or unique-local range
/// is classified private.
pub proof fn lemma_reserved_ranges_are_private(ip: IpAddress)
    requires
        in_rfc1918(ip) || in_loopback(ip) || in_link_local(ip) || in_ula(ip),
    ensures
        spec_is_private_ip(ip),
{
}

/// `p` names `base` itself or something under it, component-wise.
pub open spec fn path_within(p: Seq<char>, base: Seq<char>) -> bool {
    &&& base.len() <= p.len()
    &&& p.subrange(0, base.len() as int) == base
    &&& (p.len() == base.len() || p[base.len() as int] == '/' || (base.len() > 0 && base[base.len()
        - 1] == '/'))
}

/// Does `p` name `base` or something under it?
pub fn path_starts_within(p: &Vec<char>, base: &Vec<char>) -> (r: bool)
    ensures
        r == path_within(p@, base@),
{
    if !text::starts_with_chars(p, base) {
        return false;
    }
    if p.len() == base.len() {
        return true;
    }
    if p[base.len()] == '/' {
        return true;
    }
    if base.len() > 0 && base[base.len() - 1] == '/' {
        return true;
    }
    false
}

/// The requested path joined under the workspace: kept as is when absolute,
/// else `workspace/requested`.
pub open spec fn joined_request(workspace: Seq<char>, requested: Seq<char>) -> Seq<char> {
    if requested.len() > 0 && requested[0] == '/' {
        requested
    } else {
        workspace + seq!['/'] + requested
    }
}

/// Join a requested path under the workspace.
pub fn join_requested(workspace: &str, requested: &str) -> (r: String)
    ensures
        r@ == joined_request(workspace@, requested@),
{
    let req = text::str_chars(requested);
    if req.len() > 0 && req[0] == '/' {
        return text::chars_to_string(&req);
    }
    let mut v = text::str_chars(workspace);
    v.push('/');
    text::push_all(&mut v, &req);
    assert(v@ =~= joined_request(workspace@, requested@));
    text::chars_to_string(&v)
}

/// Decide on an already-resolved (canonicalized) target: accepted exactly
/// when it lies inside the canonical workspace; a symlink that escapes gets
/// its own message.
pub fn validate_path_resolved(
    workspace_canonical: &str,
    resolved: &str,
    requested: &str,
    is_symlink: bool,
) -> (r: Result<String, ToolError>)
    ensures
        (r is Ok) == path_within(resolved@, workspace_canonical@),
        r matches Ok(p) ==> p@ == resolved@,
        r matches Err(e) ==> e matches ToolError::ExecutionError(m) && m@ == (if is_symlink {
            "Access denied: symlink '"@ + requested@ + "' points outside workspace"@
        } else {
            "Access denied: path '"@ + requested@ + "' is outside workspace '"@
                + workspace_canonical@ + "'"@
        }),
{
    let p = text::str_chars(resolved);
    let base = text::str_chars(workspace_canonical);
    if path_starts_within(&p, &base) {
        Ok(text::chars_to_string(&p))
    } else if is_symlink {
        let mut m = String::from_str("Access denied: symlink '");
        m.append(requested);
        m.append("' points outside workspace");
        Err(ToolError::ExecutionError(m))
    } else {
        let mut m = String::from_str("Access denied: path '");
        m.append(requested);
        m.append("' is outside workspace '");
        m.append(workspace_canonical);
        m.append("'");
        Err(ToolError::ExecutionError(m))
    }
}

/// `base` extended by each component in order, '/'-separated.
pub open spec fn joined_under(base: Seq<char>, comps: Seq<Seq<char>>) -> Seq<char>
    decreases comps.len(),
{
    if comps.len() == 0 {
        base
    } else {
        joined_under(base + seq!['/'] + comps[0], comps.drop_first())
    }
}

/// Decide on a target that does not exist yet: its first existing ancestor
/// has been canonicalized; the remaining components (nearest the ancestor
/// first) are appended after the prefix check, and any `..` among them is
/// refused.
pub fn validate_path_rebuild(
    workspace_canonical: &str,
    ancestor_canonical: &str,
    remaining: &Vec<String>,
    requested: &str,
) -> (r: Result<String, ToolError>)
    ensures
        (r is Ok) == (path_within(ancestor_canonical@, workspace_canonical@) && (forall|j: int|
            0 <= j < remaining@.len() ==> remaining@[j]@ != ".."@)),
        r matches Ok(p) ==> p@ == joined_under(
            ancestor_canonical@,
            remaining@.map_values(|s: String| s@),
        ) && path_within(p@, workspace_canonical@),
        !path_within(ancestor_canonical@, workspace_canonical@) ==> (r matches Err(
            ToolError::ExecutionError(m),
        ) && m@ == "Access denied: path '"@ + requested@ + "' is outside workspace '"@
            + workspace_canonical@ + "'"@),
        path_within(ancestor_canonical@, workspace_canonical@) && (exists|j: int|
            0 <= j < remaining@.len() && (#[trigger] remaining@[j])@ == ".."@) ==> (r matches Err(
            ToolError::ExecutionError(m),
        ) && m@ == "Path traversal ('..') is not allowed"@),
{
    let anc = text::str_chars(ancestor_canonical);
    let base = text::str_chars(workspace_canonical);
    if !path_starts_within(&anc, &base) {
        let mut m = String::from_str("Access denied: path '");
        m.append(requested);
        m.append("' is outside workspace '");
        m.append(workspace_canonical);
        m.append("'");
        return Err(ToolError::ExecutionError(m));
    }
    let mut v = anc;
    let n = remaining.len();
    let ghost comps = remaining@.map_values(|s: String| s@);
    proof {
        assert(comps.subrange(0, n as int) =~= comps);
    }
    for i in 0..n
        invariant
            n == remaining.len(),
            comps == remaining@.map_values(|s: String| s@),
            path_within(ancestor_canonical@, workspace_canonical@),
            forall|j: int| 0 <= j < i ==> remaining@[j]@ != ".."@,
            joined_under(v@, comps.subrange(i as int, n as int)) == joined_under(
                ancestor_canonical@,
                comps,
            ),
            path_within(v@, workspace_canonical@),
    {
        let comp = &remaining[i];
        if comp.as_str().unicode_len() == 2 && comp.as_str().get_char(0) == '.'
            && comp.as_str().get_char(1) == '.' {
            proof {
                reveal_strlit("..");
                assert(remaining@[i as int]@ =~= ".."@);
            }
            return Err(
                ToolError::ExecutionError(
                    String::from_str("Path traversal ('..') is not allowed"),
                ),
            );
        }
        proof {
            reveal_strlit("..");
            if remaining@[i as int]@ == ".."@ {
                assert(remaining@[i as int]@.len() == 2);
                assert(remaining@[i as int]@[0] == '.');
                assert(remaining@[i as int]@[1] == '.');
                assert(false);
            }
        }
        let ghost v_before = v@;
        v.push('/');
        let comp_chars = text::str_chars(comp.as_str());
        text::push_all(&mut v, &comp_chars);
        proof {
            assert(v@ =~= v_before + seq!['/'] + comps[i as int]);
            assert(comps.subrange(i as int, n as int).drop_first() =~= comps.subrange(
                i + 1,
                n as int,
            ));
            assert(comps.subrange(i as int, n as int)[0] == comps[i as int]);
            assert(path_within(v@, workspace_canonical@)) by {
                assert(v@.subrange(0, workspace_canonical@.len() as int) =~= v_before.subrange(
                    0,
                    workspace_canonical@.len() as int,
                ));
            }
        }
    }
    proof {
        assert(comps.subrange(n as int, n as int) =~= Seq::<Seq<char>>::empty());
    }
    Ok(text::chars_to_string(&v))
}

} // verus!
