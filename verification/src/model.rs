use vstd::prelude::*;
use vstd::string::StringExecFns;

verus! {

/// A way of checking a project
#[derive(Debug, Clone, Copy, PartialEq, Eq, Structural)]
pub enum Checker {
    /// Check with `cargo check`
    Check,
    /// Check with `cargo clippy`
    Clippy,
}

impl Checker {
    /// The cargo subcommand that runs this checker.
    pub fn command_name(self) -> (r: &'static str)
        ensures
            self == Checker::Check ==> r@ == ("check")@,
            self == Checker::Clippy ==> r@ == ("clippy")@,
    {
        match self {
            Checker::Check => "check",
            Checker::Clippy => "clippy",
        }
    }

    /// The full argument list handed to cargo for one run: the checker's
    /// subcommand, the JSON message format, then the caller's extra
    /// arguments, in order.
    pub fn cargo_args(self, extra: &Vec<String>) -> (r: Vec<String>)
        ensures
            r@.len() == 3 + extra@.len(),
            r@[0]@ == (if self == Checker::Check {
                ("check")@
            } else {
                ("clippy")@
            }),
            r@[1]@ == ("--message-format")@,
            r@[2]@ == ("json")@,
            forall|i: int| 0 <= i < extra@.len() ==> r@[3 + i] == extra@[i],
    {
        let mut v: Vec<String> = Vec::new();
        v.push(String::from_str(self.command_name()));
        v.push(String::from_str("--message-format"));
        v.push(String::from_str("json"));
        let n = extra.len();
        let mut i: usize = 0;
        while i < n
            invariant
                n == extra@.len(),
                i <= n,
                v@.len() == 3 + i,
                v@[0]@ == (if self == Checker::Check {
                    ("check")@
                } else {
                    ("clippy")@
                }),
                v@[1]@ == ("--message-format")@,
                v@[2]@ == ("json")@,
                forall|j: int| 0 <= j < i ==> v@[3 + j] == extra@[j],
            decreases n - i,
        {
            v.push(extra[i].clone());
            i = i + 1;
        }
        v
    }
}

impl Default for Checker {
    /// The default checker is `cargo check`.
    fn default() -> (r: Self)
        ensures
            r == Checker::Check,
    {
        Checker::Check
    }
}

/// A reason output by cargo
#[derive(Debug, Clone, Copy, PartialEq, Eq, Structural)]
pub enum Reason {
    CompilerArtifact,
    CompilerMessage,
    BuildScriptExecuted,
}

/// A message severity level output by cargo.
///
/// `Empty` is the level cargo encodes as the empty string; a message at that
/// level is never report-worthy.
#[derive(Debug, Clone, Copy, PartialEq, Eq, Structural)]
pub enum Level {
    Empty,
    Note,
    Help,
    Warning,
    Error,
}

impl Level {
    /// Check if the level is not `Level::Empty`
    pub fn is_some(self) -> (r: bool)
        ensures
            r == (self != Level::Empty),
    {
        !self.is_none()
    }

    /// Check if the level is `Level::Empty`
    pub fn is_none(self) -> (r: bool)
        ensures
            r == (self == Level::Empty),
    {
        self == Level::Empty
    }
}

/// A top-level entry output by cargo
#[derive(Debug, PartialEq, Eq)]
pub struct Entry {
    pub reason: Reason,
    pub package_id: String,
    pub target: Option<Target>,
    pub message: Option<Message>,
    pub profile: Option<Profile>,
    pub features: Option<Vec<String>>,
    pub filenames: Option<Vec<String>>,
    pub executable: Option<String>,
    pub fresh: Option<bool>,
    /// Whether reports from this entry are rendered with color.
    pub color: bool,
}

impl Entry {

    /// Check if the `Entry` is a compiler message
    pub fn is_message(&self) -> (r: bool)
        ensures
            r == (self.reason == Reason::CompilerMessage),
    {
        self.reason == Reason::CompilerMessage
    }

    /// Check if the `Entry` is a compiler artifact
    pub fn is_artifact(&self) -> (r: bool)
        ensures
            r == (self.reason == Reason::CompilerArtifact),
    {
        self.reason == Reason::CompilerArtifact
    }

    /// Check if the `Entry` carries a message at level `Error`
    pub fn is_error(&self) -> (r: bool)
        ensures
            r == (self.message is Some && self.message->0.level == Level::Error),
    {
        match &self.message {
            Some(m) => m.level == Level::Error,
            None => false,
        }
    }

    /// Check if the `Entry` carries a message at level `Warning`
    pub fn is_warning(&self) -> (r: bool)
        ensures
            r == (self.message is Some && self.message->0.level == Level::Warning),
    {
        match &self.message {
            Some(m) => m.level == Level::Warning,
            None => false,
        }
    }

    /// Get the `Entry`'s render if it had one
    pub fn rendered(&self) -> (r: Option<&str>)
        ensures
            match self.message {
                Some(m) => match m.rendered {
                    Some(s) => r is Some && r->0@ == s@,
                    None => r is None,
                },
                None => r is None,
            },
    {
        match &self.message {
            Some(m) => match &m.rendered {
                Some(s) => Some(s.as_str()),
                None => None,
            },
            None => None,
        }
    }
}

/// Target information output by cargo
#[derive(Debug, Clone, PartialEq, Eq)]
pub struct Target {
    pub kind: Vec<TargetKind>,
    pub crate_types: Vec<CrateType>,
    pub name: String,
    pub src_path: String,
    pub edition: String,
}

/// The kind of a [`Target`] output by cargo
#[derive(Debug, Clone, Copy, PartialEq, Eq, Structural)]
pub enum TargetKind {
    Lib,
    Bin,
    CustomBuild,
    ProcMacro,
}

/// A message output by cargo
#[derive(Debug, PartialEq, Eq)]
pub struct Message {
    pub message: String,
    pub code: Option<Code>,
    pub level: Level,
    pub spans: Option<Vec<Span>>,
    pub children: Option<Vec<Message>>,
    pub rendered: Option<String>,
}

/// A code output by cargo
#[derive(Debug, Clone, PartialEq, Eq)]
pub struct Code {
    pub code: String,
    pub explanation: Option<String>,
}

/// A span output by cargo
#[derive(Debug, PartialEq, Eq)]
pub struct Span {
    pub file_name: String,
    pub byte_start: usize,
    pub byte_end: usize,
    pub line_start: usize,
    pub line_end: usize,
    pub column_start: usize,
    pub column_end: usize,
    pub is_primary: bool,
    pub text: Vec<Text>,
    pub label: Option<String>,
    pub suggested_replacement: Option<String>,
    pub suggestion_applicability: Option<String>,
    pub expansion: Option<Box<Expansion>>,
}

impl Span {
    /// Get the `Span`'s line and column
    pub fn line(&self) -> (r: (usize, usize))
        ensures
            r.0 == self.line_start,
            r.1 == self.column_start,
    {
        (self.line_start, self.column_start)
    }

    /// Get the `Span`'s file name as a `String`
    pub fn file_name_string(&self) -> (r: String)
        ensures
            r@ == self.file_name@,
    {
        self.file_name.clone()
    }
}

/// A piece of text output by cargo
#[derive(Debug, Clone, PartialEq, Eq)]
pub struct Text {
    pub text: String,
    pub highlight_start: usize,
    pub highlight_end: usize,
}

/// A macro expansion output by cargo
#[derive(Debug, PartialEq, Eq)]
pub struct Expansion {
    pub span: Span,
    pub macro_decl_name: String,
    pub def_site_span: Option<Span>,
}

/// A crate type output by cargo
#[derive(Debug, Clone, Copy, PartialEq, Eq, Structural)]
pub enum CrateType {
    Lib,
    Bin,
    ProcMacro,
}

/// A profile output by cargo
#[derive(Debug, Clone, PartialEq, Eq)]
pub struct Profile {
    pub opt_level: String,
    pub debuginfo: u8,
    pub debug_assertions: bool,
    pub overflow_checks: bool,
    pub test: bool,
}

} // verus!
