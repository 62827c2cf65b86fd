use vstd::prelude::*;

verus! {

/// Application error carrying its CLI exit code.
#[derive(Debug)]
pub enum CliError {
    Usage(String),
    Module(String),
    Network(String),
    Config(String),
}

impl CliError {
    /// The process exit code for this kind of error.
    pub open spec fn code_of(&self) -> i32 {
        match self {
            CliError::Usage(_) => 1,
            CliError::Module(_) => 2,
            CliError::Network(_) => 3,
            CliError::Config(_) => 4,
        }
    }

    /// The message the error carries.
    pub open spec fn text(&self) -> Seq<char> {
        match self {
            CliError::Usage(m) => m@,
            CliError::Module(m) => m@,
            CliError::Network(m) => m@,
            CliError::Config(m) => m@,
        }
    }

    pub fn exit_code(&self) -> (code: i32)
        ensures
            code == self.code_of(),
            1 <= code <= 4,
    {
        match self {
            CliError::Usage(_) => 1,
            CliError::Module(_) => 2,
            CliError::Network(_) => 3,
            CliError::Config(_) => 4,
        }
    }

    /// A protocol error of the module `module`: what it sent did not
    /// decode. Like every module error it names the module.
    pub fn protocol(module: &str, detail: &str) -> (e: CliError)
        ensures
            e matches CliError::Module(m) && m@ == "module "@ + module@ + ": module protocol: "@ + detail@,
    {
        let mut m = String::from_str("module ");
        m.append(module);
        m.append(": module protocol: ");
        m.append(detail);
        CliError::Module(m)
    }

    /// The text shown to the user for this error: its message alone.
    pub fn message(&self) -> (m: String)
        ensures
            m@ == self.text(),
    {
        match self {
            CliError::Usage(m) => m.clone(),
            CliError::Module(m) => m.clone(),
            CliError::Network(m) => m.clone(),
            CliError::Config(m) => m.clone(),
        }
    }
}

} // verus!
