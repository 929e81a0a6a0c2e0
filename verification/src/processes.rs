//! Descriptions of the llama.cpp child processes and of their output.
use vstd::prelude::*;

verus! {

/// The kinds of child process; at most one of each runs at a time.
#[derive(Debug, Clone, Copy, PartialEq, Eq, Hash, Structural)]
pub enum ProcessKind {
    LlamaServer,
    RpcWorker,
    LlamaBench,
}

/// The output stream a log line came from.
#[derive(Debug, Clone, Copy, PartialEq, Eq, Structural)]
pub enum OutputStream {
    Stdout,
    Stderr,
}

/// One line of a child's output.
#[derive(Debug, Clone, PartialEq, Eq)]
pub struct ProcessLog {
    pub process: ProcessKind,
    pub stream: OutputStream,
    pub line: String,
}

/// What to run: the executable (a path as text), its arguments, an
/// optional working directory and extra environment variables. No shell
/// is involved.
#[derive(Debug)]
pub struct ProcessSpec {
    pub kind: ProcessKind,
    pub executable: String,
    pub args: Vec<String>,
    pub working_directory: Option<String>,
    pub environment: Vec<(String, String)>,
}

pub open spec fn texts(v: Seq<String>) -> Seq<Seq<char>> {
    v.map_values(|s: String| s@)
}

impl ProcessSpec {
    /// A process of `kind` running `executable` with no arguments.
    pub fn new(kind: ProcessKind, executable: String) -> (spec: Self)
        ensures
            spec.kind == kind,
            spec.executable == executable,
            spec.args@.len() == 0,
            spec.working_directory is None,
            spec.environment@.len() == 0,
    {
        ProcessSpec { kind, executable, args: Vec::new(), working_directory: None, environment: Vec::new() }
    }

    /// Appends arguments.
    pub fn args(self, args: Vec<String>) -> (spec: Self)
        ensures
            spec.kind == self.kind,
            spec.executable == self.executable,
            spec.args@ == self.args@ + args@,
            spec.working_directory == self.working_directory,
            spec.environment@ == self.environment@,
    {
        let mut spec = self;
        let mut more = args;
        spec.args.append(&mut more);
        spec
    }
}

} // verus!
