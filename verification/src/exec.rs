//! The exec tool's safety rules: the enable switch, the path-traversal
//! refusal, and the blocked-command patterns. Spawning, resource limits and
//! the timeout kill happen outside the library; the decisions are made here.

use vstd::prelude::*;

use crate::errors::ToolError;
use crate::sandbox::SandboxConfig;
use crate::text;

verus! {

/// The command substrings refused for safety, in match order, as the
/// lowercased command is scanned.
pub open spec fn spec_blocked_patterns() -> Seq<Seq<char>> {
    seq![
        "rm -rf /"@,
        "rm -rf /*"@,
        "sudo "@,
        "mkfs"@,
        "dd if="@,
        ":(){"@,
        "> /dev/"@,
        "chmod 777 /"@,
        "chown root"@,
        "pkill -9"@,
        "killall"@,
        "shutdown"@,
        "reboot"@,
        "init 0"@,
        "init 6"@,
        "format "@,
        "fdisk"@,
    ]
}

/// Patterns that are blocked from execution for safety.
pub fn blocked_patterns() -> (r: Vec<&'static str>)
    ensures
        r@.len() == spec_blocked_patterns().len(),
        forall|i: int| 0 <= i < r@.len() ==> r@[i]@ == spec_blocked_patterns()[i],
{
    let mut v: Vec<&'static str> = Vec::new();
    v.push("rm -rf /");
    v.push("rm -rf /*");
    v.push("sudo ");
    v.push("mkfs");
    v.push("dd if=");
    v.push(":(){");
    v.push("> /dev/");
    v.push("chmod 777 /");
    v.push("chown root");
    v.push("pkill -9");
    v.push("killall");
    v.push("shutdown");
    v.push("reboot");
    v.push("init 0");
    v.push("init 6");
    v.push("format ");
    v.push("fdisk");
    v
}

/// The command, lowercased, holds the pattern.
pub open spec fn command_matches(command: Seq<char>, pattern: Seq<char>) -> bool {
    text::contains_seq(text::lower_seq(command), pattern)
}

/// The sandboxed shell tool: its configuration; running happens outside the
/// library.
#[derive(Debug)]
pub struct ExecTool {
    pub sandbox: SandboxConfig,
}

impl ExecTool {
    pub fn new(sandbox: SandboxConfig) -> (r: Self)
        ensures
            r.sandbox == sandbox,
    {
        ExecTool { sandbox }
    }

    /// The first blocked pattern the lowercased command holds, if any.
    pub fn is_command_blocked(command: &str) -> (r: Option<&'static str>)
        ensures
            match r {
                Some(p) => exists|i: int|
                    {
                        &&& 0 <= i < spec_blocked_patterns().len()
                        &&& p@ == #[trigger] spec_blocked_patterns()[i]
                        &&& command_matches(command@, spec_blocked_patterns()[i])
                        &&& forall|j: int|
                            0 <= j < i ==> !command_matches(
                                command@,
                                #[trigger] spec_blocked_patterns()[j],
                            )
                    },
                None => forall|i: int|
                    0 <= i < spec_blocked_patterns().len() ==> !command_matches(
                        command@,
                        #[trigger] spec_blocked_patterns()[i],
                    ),
            },
    {
        let chars = text::str_chars(command);
        let lower = text::to_lower_chars(&chars);
        let patterns = blocked_patterns();
        let n = patterns.len();
        for i in 0..n
            invariant
                n == patterns@.len(),
                n == spec_blocked_patterns().len(),
                forall|j: int| 0 <= j < n ==> patterns@[j]@ == spec_blocked_patterns()[j],
                lower@ == text::lower_seq(command@),
                forall|j: int|
                    0 <= j < i ==> !command_matches(
                        command@,
                        #[trigger] spec_blocked_patterns()[j],
                    ),
        {
            let pat = text::str_chars(patterns[i]);
            if text::contains_chars(&lower, &pat) {
                return Some(patterns[i]);
            }
        }
        None
    }

    /// Decide whether a command may run: refused when execution is disabled,
    /// when the command holds a `..` sequence, or when it matches a blocked
    /// pattern; each refusal carries its message.
    pub fn precheck(&self, command: &str) -> (r: Result<(), ToolError>)
        ensures
            !self.sandbox.exec_enabled ==> (r matches Err(ToolError::ExecutionError(m)) && m@
                == "Command execution is disabled by sandbox policy"@),
            self.sandbox.exec_enabled && text::contains_seq(command@, ".."@) ==> (r matches Err(
                ToolError::ExecutionError(m),
            ) && m@ == "Command contains disallowed '..' sequence"@),
            self.sandbox.exec_enabled && !text::contains_seq(command@, ".."@) && (exists|i: int|
                0 <= i < spec_blocked_patterns().len() && command_matches(
                    command@,
                    #[trigger] spec_blocked_patterns()[i],
                )) ==> r is Err,
            self.sandbox.exec_enabled && !text::contains_seq(command@, ".."@) && (forall|i: int|
                0 <= i < spec_blocked_patterns().len() ==> !command_matches(
                    command@,
                    #[trigger] spec_blocked_patterns()[i],
                )) ==> r is Ok,
    {
        if !self.sandbox.exec_enabled {
            return Err(
                ToolError::ExecutionError(
                    String::from_str("Command execution is disabled by sandbox policy"),
                ),
            );
        }
        let chars = text::str_chars(command);
        let dots = text::str_chars("..");
        if text::contains_chars(&chars, &dots) {
            return Err(
                ToolError::ExecutionError(
                    String::from_str("Command contains disallowed '..' sequence"),
                ),
            );
        }
        match Self::is_command_blocked(command) {
            Some(pattern) => {
                let mut m = String::from_str("Command blocked by security policy (matched: '");
                m.append(pattern);
                m.append("')");
                Err(ToolError::ExecutionError(m))
            },
            None => Ok(()),
        }
    }

    /// Assemble a command's captured output: labeled stdout and stderr
    /// sections, truncated to the sandbox's output limit, or a fixed note
    /// when both are empty.
    pub fn format_output(&self, stdout: &str, stderr: &str) -> (r: String)
        ensures
            stdout@.len() == 0 && stderr@.len() == 0 ==> r@ == "(no output)"@,
            !(stdout@.len() == 0 && stderr@.len() == 0) ==> r@
                == crate::sandbox::truncated_output(
                exec_output_text(stdout@, stderr@),
                self.sandbox.max_output_bytes as nat,
            ),
    {
        if stdout.is_empty() && stderr.is_empty() {
            return String::from_str("(no output)");
        }
        let mut v: Vec<char> = Vec::new();
        if !stdout.is_empty() {
            let head = text::str_chars("STDOUT:\n");
            text::push_all(&mut v, &head);
            let body = text::str_chars(stdout);
            text::push_all(&mut v, &body);
            v.push('\n');
        }
        if !stderr.is_empty() {
            let head = text::str_chars("STDERR:\n");
            text::push_all(&mut v, &head);
            let body = text::str_chars(stderr);
            text::push_all(&mut v, &body);
            v.push('\n');
        }
        assert(v@ =~= exec_output_text(stdout@, stderr@));
        let joined = text::chars_to_string(&v);
        crate::sandbox::truncate_output(joined.as_str(), self.sandbox.max_output_bytes)
    }
}

/// The labeled output text before truncation.
pub open spec fn exec_output_text(stdout: Seq<char>, stderr: Seq<char>) -> Seq<char> {
    (if stdout.len() > 0 {
        "STDOUT:\n"@ + stdout + seq!['\n']
    } else {
        Seq::empty()
    }) + (if stderr.len() > 0 {
        "STDERR:\n"@ + stderr + seq!['\n']
    } else {
        Seq::empty()
    })
}

} // verus!
