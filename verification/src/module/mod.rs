pub mod jsonrpc;

use vstd::prelude::*;
use crate::errors::CliError;
use crate::module::jsonrpc::Response;
use crate::paths::{absolute, component_count, segment, joined_path, path_component_count, path_is_absolute, path_join};
use crate::text::{debug_quoted, debug_text, push_decimal, push_signed_decimal, push_str, signed_decimal, decimal, views};

verus! {

/// Seconds the host waits for a module's response.
pub const EXCHANGE_TIMEOUT_SECS: u64 = 30;

/// How to run one library module.
#[derive(Debug)]
pub struct ModuleHost {
    pub name: String,
    command: Vec<String>,
    cwd: String,
}

/// Whether a manifest's program names a file in the module directory: it
/// has more than one path component, or `in_dir` (a file of that name
/// exists in the module directory).
pub open spec fn program_is_local(program: Seq<char>, in_dir: bool) -> bool {
    component_count(program) > 1 || in_dir
}

/// An argument of the command, resolved against the module directory:
/// absolute arguments stay as they are.
pub open spec fn resolved_arg(dir: Seq<char>, arg: Seq<char>) -> Seq<char> {
    if absolute(arg) { arg } else { joined_path(dir, arg) }
}

/// The argv a manifest command resolves to in module directory `dir`: the
/// program joined to the directory when it is local (else looked up on
/// PATH), and every other argument resolved against the directory.
pub open spec fn resolved_command(cmd: Seq<Seq<char>>, dir: Seq<char>, in_dir: bool) -> Seq<Seq<char>> {
    Seq::new(cmd.len(), |i: int|
        if i == 0 {
            if program_is_local(cmd[0], in_dir) { joined_path(dir, cmd[0]) } else { cmd[0] }
        } else {
            resolved_arg(dir, cmd[i])
        })
}

impl ModuleHost {
    /// The resolved argv of the module's command. The field is private;
    /// `command()` hands it out, and its contract equates it with this.
    pub closed spec fn argv(&self) -> Seq<Seq<char>> {
        views(self.command@)
    }

    /// The module's name. Outside this module the struct is opaque to
    /// proofs (it has private fields), so verified callers read the name
    /// through `name()`, whose contract equates it with this.
    pub closed spec fn module_name(&self) -> Seq<char> {
        self.name@
    }

    /// The directory the module runs in. The field is private; `cwd()`
    /// hands it out, and its contract equates it with this.
    pub closed spec fn dir(&self) -> Seq<char> {
        self.cwd@
    }

    /// A host for the module `name` whose manifest command is
    /// `manifest_command`, run in the module directory `cwd`.
    /// `program_in_dir` tells whether the command's first element names a
    /// file in `cwd`.
    pub fn new(name: String, manifest_command: &Vec<String>, cwd: String, program_in_dir: bool) -> (h: ModuleHost)
        requires
            manifest_command@.len() > 0,
        ensures
            h.module_name() == name@,
            h.argv() == resolved_command(views(manifest_command@), cwd@, program_in_dir),
            h.dir() == cwd@,
    {
        let command = resolve_command(manifest_command, cwd.as_str(), program_in_dir);
        ModuleHost { name, command, cwd }
    }

    /// The module's name.
    pub fn name(&self) -> (n: &str)
        ensures
            n@ == self.module_name(),
    {
        self.name.as_str()
    }

    /// The program and arguments to run.
    pub fn command(&self) -> (c: &Vec<String>)
        ensures
            views(c@) == self.argv(),
    {
        &self.command
    }

    /// The working directory to run the module in.
    pub fn cwd(&self) -> (d: &str)
        ensures
            d@ == self.dir(),
    {
        self.cwd.as_str()
    }
}

/// Resolves a manifest command against the module directory `dir`. A
/// bare program name (one segment, no '/') that is not a file of the
/// module directory is left to be looked up on PATH.
pub fn resolve_command(cmd: &Vec<String>, dir: &str, program_in_dir: bool) -> (r: Vec<String>)
    requires
        cmd@.len() > 0,
    ensures
        views(r@) == resolved_command(views(cmd@), dir@, program_in_dir),
        segment(cmd@[0]@) && !program_in_dir ==> r@[0]@ == cmd@[0]@,
{
    let ghost want = resolved_command(views(cmd@), dir@, program_in_dir);
    let first = &cmd[0];
    let local = path_component_count(first.as_str()) > 1 || program_in_dir;
    let program = if local {
        path_join(dir, first.as_str())
    } else {
        first.clone()
    };
    let mut out: Vec<String> = Vec::new();
    out.push(program);
    let n = cmd.len();
    for i in 1..n
        invariant
            n == cmd@.len(),
            want == resolved_command(views(cmd@), dir@, program_in_dir),
            out@.len() == i,
            forall|j: int| 0 <= j < i ==> (#[trigger] out@[j])@ == want[j],
    {
        let arg = &cmd[i];
        let resolved = if path_is_absolute(arg.as_str()) {
            arg.clone()
        } else {
            path_join(dir, arg.as_str())
        };
        out.push(resolved);
    }
    assert(views(out@) =~= want);
    out
}

/// What came back from a module during one exchange.
#[derive(Debug)]
pub enum Exchange {
    /// The module's program could not be started.
    SpawnFailed { program: String, reason: String },
    /// The request could not be written to the module.
    SendFailed(String),
    /// A response line, decoded, or the decoder's complaint about it.
    Reply(Result<Response, String>),
    /// The module closed its output without writing a line.
    Closed,
    /// Reading the module's output failed.
    ReadFailed(String),
    /// No line arrived within this many seconds.
    TimedOut(u64),
}

/// "module <name>: " before a message about that module.
pub open spec fn about(name: Seq<char>, m: Seq<char>) -> Seq<char> {
    "module "@ + name + ": "@ + m
}

/// What an exchange with the module `name` yields: the JSON text of the
/// result, or a module error. A response that carries an error is an error
/// whether or not it also carries a result.
pub open spec fn exchange_outcome(name: Seq<char>, ex: Exchange) -> Result<Seq<char>, Seq<char>> {
    match ex {
        Exchange::SpawnFailed { program, reason } => Err(about(name, "cannot spawn "@ + debug_text(program@) + ": "@ + reason@)),
        Exchange::SendFailed(e) => Err(about(name, "failed to send request: "@ + e@)),
        Exchange::Reply(Err(d)) => Err(about(name, "module protocol: "@ + d@)),
        Exchange::Reply(Ok(resp)) => match resp.error {
            Some(e) => Err(about(name, e.message@ + " (code "@ + signed_decimal(e.code as int) + ")"@)),
            None => match resp.result {
                Some(v) => Ok(v@),
                None => Err(about(name, "response has neither result nor error"@)),
            },
        },
        Exchange::Closed => Err(about(name, "exited without a response"@)),
        Exchange::ReadFailed(e) => Err(about(name, "read error: "@ + e@)),
        Exchange::TimedOut(secs) => Err(about(name, "timed out after "@ + decimal(secs as nat) + "s"@)),
    }
}

fn module_error(name: &str, detail: String) -> (e: CliError)
    ensures
        e matches CliError::Module(m) && m@ == about(name@, detail@),
{
    let mut m = String::from_str("module ");
    push_str(&mut m, name);
    push_str(&mut m, ": ");
    push_str(&mut m, detail.as_str());
    CliError::Module(m)
}

/// Decides what an exchange with the module `name` yields: the JSON text of
/// the response's result, or the module error to report.
pub fn exchange_result(name: &str, ex: Exchange) -> (r: Result<String, CliError>)
    ensures
        match exchange_outcome(name@, ex) {
            Ok(v) => r matches Ok(t) && t@ == v,
            Err(m) => r matches Err(CliError::Module(e)) && e@ == m,
        },
{
    match ex {
        Exchange::SpawnFailed { program, reason } => {
            let mut d = String::from_str("cannot spawn ");
            let q = debug_quoted(program.as_str());
            push_str(&mut d, q.as_str());
            push_str(&mut d, ": ");
            push_str(&mut d, reason.as_str());
            Err(module_error(name, d))
        },
        Exchange::SendFailed(e) => {
            let mut d = String::from_str("failed to send request: ");
            push_str(&mut d, e.as_str());
            Err(module_error(name, d))
        },
        Exchange::Reply(Err(d)) => {
            proof {
                reveal_strlit("module ");
                reveal_strlit(": ");
                reveal_strlit("module protocol: ");
                reveal_strlit(": module protocol: ");
            }
            let e = CliError::protocol(name, d.as_str());
            assert(about(name@, "module protocol: "@ + d@) =~= "module "@ + name@ + ": module protocol: "@ + d@);
            Err(e)
        },
        Exchange::Reply(Ok(resp)) => match resp.error {
            Some(e) => {
                let mut d = e.message;
                push_str(&mut d, " (code ");
                push_signed_decimal(&mut d, e.code);
                push_str(&mut d, ")");
                Err(module_error(name, d))
            },
            None => match resp.result {
                Some(v) => Ok(v),
                None => Err(module_error(name, String::from_str("response has neither result nor error"))),
            },
        },
        Exchange::Closed => Err(module_error(name, String::from_str("exited without a response"))),
        Exchange::ReadFailed(e) => {
            let mut d = String::from_str("read error: ");
            push_str(&mut d, e.as_str());
            Err(module_error(name, d))
        },
        Exchange::TimedOut(secs) => {
            let mut d = String::from_str("timed out after ");
            push_decimal(&mut d, secs);
            push_str(&mut d, "s");
            Err(module_error(name, d))
        },
    }
}

} // verus!
