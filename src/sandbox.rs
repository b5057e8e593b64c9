//! What the sandbox needs decided: commands, the profile a child runs
//! under and the order of the restrictions applied to it, and how the
//! outcome of a run is described.
use vstd::prelude::*;

use crate::resource::ResourceUsage;

verus! {

/// A program to run and its arguments.
#[derive(Debug, Clone, Hash, PartialEq, Eq)]
pub struct Command {
    pub executable: String,
    pub args: Vec<String>,
}

/// A command string that holds no word; it holds the string.
#[derive(Debug, Clone, PartialEq, Eq)]
pub struct InvalidCommand(pub String);

/// What `str::split_whitespace` yields for `s`, word by word.
pub uninterp spec fn words_of(s: Seq<char>) -> Seq<Seq<char>>;

/// The characters of each string.
pub open spec fn views(v: Seq<String>) -> Seq<Seq<char>> {
    v.map_values(|s: String| s@)
}

/// Relies on `str::split_whitespace`: the words depend on the characters alone.
#[verifier::external_body]
fn split_words(s: &str) -> (r: Vec<String>)
    ensures
        views(r@) == words_of(s@),
{
    s.split_whitespace().map(|w| w.to_owned()).collect()
}

impl Command {
    /// A command from its executable and its arguments.
    pub fn new(executable: &str, args: Vec<String>) -> (r: Command)
        ensures
            r.executable@ == executable@,
            r.args@ == args@,
    {
        Command { executable: executable.to_owned(), args }
    }

    /// Splits `s` on whitespace: the first word is the executable, the rest
    /// are its arguments. A string without words is refused.
    pub fn from_str(s: &str) -> (r: Result<Command, InvalidCommand>)
        ensures
            match r {
                Ok(c) => words_of(s@).len() > 0 && words_of(s@)[0] == c.executable@ && views(
                    c.args@,
                ) == words_of(s@).drop_first(),
                Err(e) => words_of(s@).len() == 0 && e.0@ == s@,
            },
    {
        let mut words = split_words(s);
        if words.len() == 0 {
            return Err(InvalidCommand(s.to_owned()));
        }
        let ghost all = words@;
        let executable = words.remove(0);
        proof {
            assert(views(words@) =~= views(all).drop_first());
        }
        Ok(Command { executable, args: words })
    }
}

/// What a child is allowed: a build may do anything within its resource
/// limits; a run is also confined to the scratch directory and to a small
/// set of system calls.
#[derive(Debug, Clone, Copy, Hash, PartialEq, Eq, Structural)]
pub enum Profile {
    Build,
    Run,
}

/// One restriction applied to a child between fork and exec.
#[derive(Debug, Clone, Copy, Hash, PartialEq, Eq, Structural)]
pub enum Restriction {
    ConfineFilesystem,
    SetResourceLimits,
    FilterSyscalls,
}

/// The restrictions of a profile, in the order they must be applied: the
/// filesystem is confined before resource limits can get in its way, and
/// the system-call filter comes last so that the steps before it may run.
pub open spec fn spec_restrictions(profile: Profile) -> Seq<Restriction> {
    match profile {
        Profile::Build => seq![Restriction::SetResourceLimits],
        Profile::Run => seq![
            Restriction::ConfineFilesystem,
            Restriction::SetResourceLimits,
            Restriction::FilterSyscalls,
        ],
    }
}

/// The restrictions of a profile, in the order they must be applied.
pub fn restrictions(profile: Profile) -> (r: Vec<Restriction>)
    ensures
        r@ == spec_restrictions(profile),
{
    match profile {
        Profile::Build => vec![Restriction::SetResourceLimits],
        Profile::Run => vec![
            Restriction::ConfineFilesystem,
            Restriction::SetResourceLimits,
            Restriction::FilterSyscalls,
        ],
    }
}

/// How far the kernel enforced a filesystem ruleset.
#[derive(Debug, Clone, Copy, Hash, PartialEq, Eq, Structural)]
pub enum EnforcementStatus {
    FullyEnforced,
    PartiallyEnforced,
    NotEnforced,
}

/// Why the filesystem could not be confined.
#[derive(Debug, Clone, PartialEq, Eq)]
pub enum LandlockError {
    /// The ruleset could not be built or applied; holds the reason.
    Ruleset(String),
    /// The kernel does not enforce the ruleset at all.
    Unsupported,
}

/// Accepts a ruleset that the kernel enforced fully or in part; one that it
/// did not enforce at all is `Unsupported`.
pub fn enforcement_outcome(status: EnforcementStatus) -> (r: Result<(), LandlockError>)
    ensures
        r is Ok <==> status != EnforcementStatus::NotEnforced,
        r matches Err(e) ==> e == LandlockError::Unsupported,
{
    match status {
        EnforcementStatus::NotEnforced => Err(LandlockError::Unsupported),
        _ => Ok(()),
    }
}

/// What a child left behind: its exit code (none when a signal killed it),
/// what it wrote, and what it used.
#[derive(Debug, Clone, PartialEq, Eq)]
pub struct Output {
    pub exit_code: Option<i32>,
    pub stdout: Vec<u8>,
    pub stderr: Vec<u8>,
    pub resource_usage: ResourceUsage,
}

/// Why a child could not be run to the end.
#[derive(Debug, Clone, PartialEq, Eq)]
pub enum ExecError {
    /// The child closed its input before all of it was written.
    BrokenPipe,
    /// Any other I/O failure; holds its description.
    Io(String),
}

} // verus!
