//! The verdict of a test, ordered from worst to best, with its display
//! strings and a case-insensitive parser.
use vstd::prelude::*;

use crate::text::{all_ascii, ascii_lower, lower_of, lowercase, str_eq};

verus! {

/// The outcome of one test, of a subtask or of a task. Variants are listed
/// from worst to best; an aggregate verdict is the minimum of its parts.
#[derive(Debug, Clone, Copy, Hash, PartialEq, Eq, Structural, PartialOrd, Ord)]
pub enum Verdict {
    CompileError,
    RuntimeError,
    WrongAnswer,
    TimeLimitExceeded,
    MemoryLimitExceeded,
    PartialScore,
    Accepted,
}

/// A colour used to show a verdict on a terminal.
#[derive(Debug, Clone, Copy, Hash, PartialEq, Eq, Structural)]
pub enum Color {
    Yellow,
    Red,
    Magenta,
    Blue,
    Green,
}

/// How a verdict is shown on a terminal: its text, in bold, in a colour.
#[derive(Debug, Clone, PartialEq, Eq)]
pub struct Painted {
    pub text: String,
    pub color: Color,
    pub bold: bool,
}

/// A string that names no verdict; it holds the string.
#[derive(Debug, Clone, PartialEq, Eq)]
pub struct InvalidVerdict(pub String);

impl Verdict {
    /// Position in the order from worst (0) to best (6).
    pub open spec fn rank(self) -> nat {
        match self {
            Verdict::CompileError => 0,
            Verdict::RuntimeError => 1,
            Verdict::WrongAnswer => 2,
            Verdict::TimeLimitExceeded => 3,
            Verdict::MemoryLimitExceeded => 4,
            Verdict::PartialScore => 5,
            Verdict::Accepted => 6,
        }
    }

    /// The worse of two verdicts.
    pub open spec fn spec_min(self, other: Verdict) -> Verdict {
        if other.rank() < self.rank() {
            other
        } else {
            self
        }
    }

    /// The human-readable name of the verdict.
    pub open spec fn display(self) -> Seq<char> {
        match self {
            Verdict::CompileError => "Compile Error"@,
            Verdict::RuntimeError => "Runtime Error"@,
            Verdict::WrongAnswer => "Wrong Answer"@,
            Verdict::TimeLimitExceeded => "Time Limit Exceeded"@,
            Verdict::MemoryLimitExceeded => "Memory Limit Exceeded"@,
            Verdict::PartialScore => "Partial Score"@,
            Verdict::Accepted => "Accepted"@,
        }
    }

    /// The colour a verdict is shown in.
    pub open spec fn spec_color(self) -> Color {
        match self {
            Verdict::CompileError | Verdict::RuntimeError => Color::Yellow,
            Verdict::WrongAnswer => Color::Red,
            Verdict::TimeLimitExceeded | Verdict::MemoryLimitExceeded => Color::Magenta,
            Verdict::PartialScore => Color::Blue,
            Verdict::Accepted => Color::Green,
        }
    }

    /// The worse of two verdicts.
    pub fn min(self, other: Verdict) -> (r: Verdict)
        ensures
            r == self.spec_min(other),
    {
        if other.rank_exec() < self.rank_exec() {
            other
        } else {
            self
        }
    }

    fn rank_exec(self) -> (r: u8)
        ensures
            r as nat == self.rank(),
    {
        match self {
            Verdict::CompileError => 0,
            Verdict::RuntimeError => 1,
            Verdict::WrongAnswer => 2,
            Verdict::TimeLimitExceeded => 3,
            Verdict::MemoryLimitExceeded => 4,
            Verdict::PartialScore => 5,
            Verdict::Accepted => 6,
        }
    }

    /// The human-readable name of the verdict.
    pub fn as_str(&self) -> (r: &'static str)
        ensures
            r@ == self.display(),
    {
        match self {
            Verdict::CompileError => "Compile Error",
            Verdict::RuntimeError => "Runtime Error",
            Verdict::WrongAnswer => "Wrong Answer",
            Verdict::TimeLimitExceeded => "Time Limit Exceeded",
            Verdict::MemoryLimitExceeded => "Memory Limit Exceeded",
            Verdict::PartialScore => "Partial Score",
            Verdict::Accepted => "Accepted",
        }
    }

    /// The human-readable name of the verdict, as an owned string.
    pub fn to_string(&self) -> (r: String)
        ensures
            r@ == self.display(),
    {
        self.as_str().to_owned()
    }

    /// The verdict's name in bold, in the verdict's colour.
    pub fn fmt_colored(&self) -> (r: Painted)
        ensures
            r.text@ == self.display(),
            r.color == self.spec_color(),
            r.bold,
    {
        let color = match self {
            Verdict::CompileError | Verdict::RuntimeError => Color::Yellow,
            Verdict::WrongAnswer => Color::Red,
            Verdict::TimeLimitExceeded | Verdict::MemoryLimitExceeded => Color::Magenta,
            Verdict::PartialScore => Color::Blue,
            Verdict::Accepted => Color::Green,
        };
        Painted { text: self.to_string(), color, bold: true }
    }

    /// Parses a verdict name, ignoring case.
    pub fn from_str(s: &str) -> (r: Result<Verdict, InvalidVerdict>)
        ensures
            match r {
                Ok(v) => parse_lowered(lower_of(s@)) == Some(v),
                Err(e) => parse_lowered(lower_of(s@)) is None && e.0@ == s@,
            },
            all_ascii(s@) ==> lower_of(s@) == ascii_lower(s@),
    {
        let lower = lowercase(s);
        let l = lower.as_str();
        if str_eq(l, "compile error") {
            Ok(Verdict::CompileError)
        } else if str_eq(l, "runtime error") {
            Ok(Verdict::RuntimeError)
        } else if str_eq(l, "wrong answer") {
            Ok(Verdict::WrongAnswer)
        } else if str_eq(l, "time limit exceeded") {
            Ok(Verdict::TimeLimitExceeded)
        } else if str_eq(l, "memory limit exceeded") {
            Ok(Verdict::MemoryLimitExceeded)
        } else if str_eq(l, "partial score") {
            Ok(Verdict::PartialScore)
        } else if str_eq(l, "accepted") {
            Ok(Verdict::Accepted)
        } else {
            Err(InvalidVerdict(s.to_owned()))
        }
    }
}

/// The verdict whose lower-cased name is `l`, if any.
pub open spec fn parse_lowered(l: Seq<char>) -> Option<Verdict> {
    if l == "compile error"@ {
        Some(Verdict::CompileError)
    } else if l == "runtime error"@ {
        Some(Verdict::RuntimeError)
    } else if l == "wrong answer"@ {
        Some(Verdict::WrongAnswer)
    } else if l == "time limit exceeded"@ {
        Some(Verdict::TimeLimitExceeded)
    } else if l == "memory limit exceeded"@ {
        Some(Verdict::MemoryLimitExceeded)
    } else if l == "partial score"@ {
        Some(Verdict::PartialScore)
    } else if l == "accepted"@ {
        Some(Verdict::Accepted)
    } else {
        None
    }
}

/// Reading the name of a verdict in any mix of upper and lower case yields
/// that same verdict. Here `s` stands for any ASCII spelling of the name of
/// `v` that differs from it only in case, the name included. On ASCII input
/// the parser above decides by the ASCII lower-casing of its argument.
pub proof fn lemma_verdict_round_trip(v: Verdict, s: Seq<char>)
    requires
        all_ascii(s),
        ascii_lower(s) == ascii_lower(v.display()),
    ensures
        all_ascii(v.display()),
        parse_lowered(ascii_lower(v.display())) == Some(v),
        parse_lowered(ascii_lower(s)) == Some(v),
{
    reveal_strlit("Compile Error");
    reveal_strlit("Runtime Error");
    reveal_strlit("Wrong Answer");
    reveal_strlit("Time Limit Exceeded");
    reveal_strlit("Memory Limit Exceeded");
    reveal_strlit("Partial Score");
    reveal_strlit("Accepted");
    reveal_strlit("compile error");
    reveal_strlit("runtime error");
    reveal_strlit("wrong answer");
    reveal_strlit("time limit exceeded");
    reveal_strlit("memory limit exceeded");
    reveal_strlit("partial score");
    reveal_strlit("accepted");
    let d = v.display();
    assert(all_ascii(d));
    assert("compile error"@[0] == 'c');
    assert("runtime error"@[0] == 'r');
    assert("wrong answer"@[0] == 'w');
    assert("time limit exceeded"@[0] == 't');
    assert("memory limit exceeded"@[0] == 'm');
    assert("partial score"@[0] == 'p');
    assert("accepted"@[0] == 'a');
    match v {
        Verdict::CompileError => {
            assert(ascii_lower(d) =~= "compile error"@);
        },
        Verdict::RuntimeError => {
            assert(ascii_lower(d) =~= "runtime error"@);
        },
        Verdict::WrongAnswer => {
            assert(ascii_lower(d) =~= "wrong answer"@);
        },
        Verdict::TimeLimitExceeded => {
            assert(ascii_lower(d) =~= "time limit exceeded"@);
        },
        Verdict::MemoryLimitExceeded => {
            assert(ascii_lower(d) =~= "memory limit exceeded"@);
        },
        Verdict::PartialScore => {
            assert(ascii_lower(d) =~= "partial score"@);
        },
        Verdict::Accepted => {
            assert(ascii_lower(d) =~= "accepted"@);
        },
    }
    assert(ascii_lower(d)[0] == ascii_lower(d)[0]);
}

} // verus!
