//! Contests and their tasks, as loaded from disk.
use vstd::prelude::*;

use crate::resource::ResourceLimits;
use crate::text::{all_ascii, ascii_lower, lower_of, lowercase, str_eq};

verus! {

/// A contest: its tasks and the rules that hold while it runs.
#[derive(Debug, Clone, Hash, PartialEq, Eq)]
pub struct Contest {
    pub name: String,
    /// The directory the contest was loaded from.
    pub path: String,
    /// The description, rendered as HTML.
    pub page: String,
    pub tasks: Vec<Task>,
    /// Only these languages may be used, where a list is given.
    pub languages: Option<Vec<String>>,
    /// Length of a session, in seconds.
    pub duration: i64,
    /// Time between two submissions of one user to one task, in seconds.
    pub cooldown: i64,
    pub leaderboard_size: usize,
    pub rlimits: ContestResourceLimits,
}

/// One task of a contest.
#[derive(Debug, Clone, Hash, PartialEq, Eq)]
pub struct Task {
    pub name: String,
    /// The statement, rendered as HTML.
    pub page: String,
    pub examples: Vec<Example>,
    pub subtasks: Vec<Subtask>,
    pub constraints: Vec<String>,
    pub tests: Vec<Test>,
    pub difficulty: Option<Difficulty>,
}

/// A worked example shown with a task.
#[derive(Debug, Clone, Hash, PartialEq, Eq)]
pub struct Example {
    pub input: String,
    pub output: String,
    pub comment: Option<String>,
}

/// A group of tests: how many it declares, and the constraints they share.
#[derive(Debug, Clone, Hash, PartialEq, Eq)]
pub struct Subtask {
    pub tests: usize,
    pub constraints: Vec<String>,
}

/// One test: the subtask it belongs to (counted from 1), its input and the
/// expected output.
#[derive(Debug, Clone, Hash, PartialEq, Eq)]
pub struct Test {
    pub subtask: usize,
    pub input: String,
    pub output: String,
}

/// Limits for building a submission and for running it on a test.
#[derive(Debug, Clone, Copy, Hash, PartialEq, Eq, Structural)]
pub struct ContestResourceLimits {
    pub build: ResourceLimits,
    pub run: ResourceLimits,
}

/// How hard a task is.
#[derive(Debug, Clone, Copy, Hash, PartialEq, Eq, Structural, PartialOrd, Ord)]
pub enum Difficulty {
    Easy,
    Medium,
    Hard,
}

/// A string that names no difficulty; it holds the string.
#[derive(Debug, Clone, PartialEq, Eq)]
pub struct InvalidDifficulty(pub String);

impl Difficulty {
    /// The human-readable name of the difficulty.
    pub open spec fn display(self) -> Seq<char> {
        match self {
            Difficulty::Easy => "Easy"@,
            Difficulty::Medium => "Medium"@,
            Difficulty::Hard => "Hard"@,
        }
    }

    /// The human-readable name of the difficulty.
    pub fn as_str(&self) -> (r: &'static str)
        ensures
            r@ == self.display(),
    {
        match self {
            Difficulty::Easy => "Easy",
            Difficulty::Medium => "Medium",
            Difficulty::Hard => "Hard",
        }
    }

    /// The human-readable name of the difficulty, as an owned string.
    pub fn to_string(&self) -> (r: String)
        ensures
            r@ == self.display(),
    {
        self.as_str().to_owned()
    }

    /// Parses a difficulty name, ignoring case.
    pub fn from_str(s: &str) -> (r: Result<Difficulty, InvalidDifficulty>)
        ensures
            match r {
                Ok(d) => parse_difficulty_lowered(lower_of(s@)) == Some(d),
                Err(e) => parse_difficulty_lowered(lower_of(s@)) is None && e.0@ == s@,
            },
            all_ascii(s@) ==> lower_of(s@) == ascii_lower(s@),
    {
        let lower = lowercase(s);
        let l = lower.as_str();
        if str_eq(l, "easy") {
            Ok(Difficulty::Easy)
        } else if str_eq(l, "medium") {
            Ok(Difficulty::Medium)
        } else if str_eq(l, "hard") {
            Ok(Difficulty::Hard)
        } else {
            Err(InvalidDifficulty(s.to_owned()))
        }
    }
}

/// The difficulty whose lower-cased name is `l`, if any.
pub open spec fn parse_difficulty_lowered(l: Seq<char>) -> Option<Difficulty> {
    if l == "easy"@ {
        Some(Difficulty::Easy)
    } else if l == "medium"@ {
        Some(Difficulty::Medium)
    } else if l == "hard"@ {
        Some(Difficulty::Hard)
    } else {
        None
    }
}

/// Parsing the name of a difficulty, written in any mix of upper and lower
/// case, gives back that difficulty: `s` is any ASCII string that lower-cases
/// to the lower-cased name of `d`, and on ASCII text `Difficulty::from_str`
/// parses exactly `parse_difficulty_lowered(ascii_lower(s))`.
pub proof fn lemma_difficulty_round_trip(d: Difficulty, s: Seq<char>)
    requires
        all_ascii(s),
        ascii_lower(s) == ascii_lower(d.display()),
    ensures
        all_ascii(d.display()),
        parse_difficulty_lowered(ascii_lower(d.display())) == Some(d),
        parse_difficulty_lowered(ascii_lower(s)) == Some(d),
{
    reveal_strlit("Easy");
    reveal_strlit("Medium");
    reveal_strlit("Hard");
    reveal_strlit("easy");
    reveal_strlit("medium");
    reveal_strlit("hard");
    let t = d.display();
    assert(all_ascii(t));
    assert("easy"@[0] == 'e');
    assert("medium"@[0] == 'm');
    assert("hard"@[0] == 'h');
    match d {
        Difficulty::Easy => {
            assert(ascii_lower(t) =~= "easy"@);
        },
        Difficulty::Medium => {
            assert(ascii_lower(t) =~= "medium"@);
        },
        Difficulty::Hard => {
            assert(ascii_lower(t) =~= "hard"@);
        },
    }
    assert(ascii_lower(t)[0] == ascii_lower(t)[0]);
}

} // verus!
