//! Building contests and tasks from their files: the front matter block,
//! the markdown statement, and the numbered tests.
use vstd::prelude::*;

use crate::contest::{Contest, ContestResourceLimits, Difficulty, Example, Subtask, Task, Test};
use crate::grade::{cursor, declared_before};

verus! {

/// Why a contest could not be loaded.
#[derive(Debug, Clone, PartialEq, Eq)]
pub enum LoadContestError {
    /// A file could not be read; holds the reason.
    Io(String),
    /// The front matter is not valid YAML of the expected shape; holds the reason.
    Yaml(String),
    /// The file does not start with a front matter block.
    NoFrontmatter,
    /// The task declares no subtask.
    NoSubtasks,
}

/// What a contest's front matter declares. Fields left out take defaults.
#[derive(Debug, Clone, PartialEq, Eq)]
pub struct ContestFrontmatter {
    pub name: String,
    pub task_paths: Vec<String>,
    pub languages: Option<Vec<String>>,
    /// In seconds.
    pub duration: i64,
    /// In seconds.
    pub cooldown: Option<i64>,
    pub leaderboard_size: Option<usize>,
    pub rlimits: ContestResourceLimits,
}

/// What a task's front matter declares.
#[derive(Debug, Clone, PartialEq, Eq)]
pub struct TaskFrontmatter {
    pub name: String,
    pub examples: Vec<Example>,
    pub subtasks: Vec<Subtask>,
    pub constraints: Vec<String>,
    pub difficulty: Option<Difficulty>,
}

/// Time between two submissions of one user to one task when a contest
/// does not say: one hour, in seconds.
pub fn cooldown() -> (r: i64)
    ensures
        r == 3600,
{
    3600
}

/// How many users a leaderboard shows when a contest does not say.
pub fn leaderboard_size() -> (r: usize)
    ensures
        r == 100,
{
    100
}

/// The line that opens and closes a front matter block.
pub open spec fn delimiter() -> Seq<char> {
    seq!['-', '-', '-', '\n']
}

/// The delimiter line starts at position `i` of `s`.
pub open spec fn delimiter_at(s: Seq<char>, i: int) -> bool {
    0 <= i && i + 4 <= s.len() && s.subrange(i, i + 4) == delimiter()
}

fn is_delimiter_at(s: &str, n: usize, i: usize) -> (r: bool)
    requires
        n == s@.len(),
    ensures
        r == delimiter_at(s@, i as int),
{
    if i > n || n - i < 4 {
        return false;
    }
    let r = s.get_char(i) == '-' && s.get_char(i + 1) == '-' && s.get_char(i + 2) == '-'
        && s.get_char(i + 3) == '\n';
    proof {
        if r {
            assert(s@.subrange(i as int, i + 4) =~= delimiter());
        } else if delimiter_at(s@, i as int) {
            assert(s@.subrange(i as int, i + 4)[0] == s@[i as int]);
            assert(s@.subrange(i as int, i + 4)[1] == s@[i + 1]);
            assert(s@.subrange(i as int, i + 4)[2] == s@[i + 2]);
            assert(s@.subrange(i as int, i + 4)[3] == s@[i + 3]);
        }
    }
    r
}

/// Splits a file into its front matter and the markdown after it. The file
/// must begin with a `---` line; the next `---` line ends the front matter.
pub fn split_frontmatter(input: &str) -> (r: Result<(String, String), LoadContestError>)
    ensures
        match r {
            Ok((yaml, body)) => exists|e: int|
                4 <= e && delimiter_at(input@, 0) && delimiter_at(input@, e) && (forall|k: int|
                    4 <= k < e ==> !delimiter_at(input@, k)) && yaml@ == input@.subrange(4, e)
                    && body@ == input@.subrange(e + 4, input@.len() as int),
            Err(err) => err == LoadContestError::NoFrontmatter && (!delimiter_at(input@, 0) || (
            forall|k: int| 4 <= k ==> !delimiter_at(input@, k))),
        },
{
    let n = input.unicode_len();
    if !is_delimiter_at(input, n, 0) {
        return Err(LoadContestError::NoFrontmatter);
    }
    let mut e: usize = 4;
    while n - e >= 4
        invariant
            n == input@.len(),
            4 <= e <= n,
            delimiter_at(input@, 0),
            forall|k: int| 4 <= k < e ==> !delimiter_at(input@, k),
        decreases n - e,
    {
        if is_delimiter_at(input, n, e) {
            let yaml = input.substring_char(4, e).to_owned();
            let body = input.substring_char(e + 4, n).to_owned();
            assert(4 <= e && delimiter_at(input@, 0) && delimiter_at(input@, e as int) && (forall|
                k: int,
            | 4 <= k < e ==> !delimiter_at(input@, k)) && yaml@ == input@.subrange(4, e as int)
                && body@ == input@.subrange(e + 4, input@.len() as int));
            return Ok((yaml, body));
        }
        e = e + 1;
    }
    Err(LoadContestError::NoFrontmatter)
}

/// What `pulldown_cmark` renders `s` to as HTML, with every extension on.
pub uninterp spec fn markdown_html(s: Seq<char>) -> Seq<char>;

/// Relies on `pulldown_cmark::Parser::new_ext` with `Options::all()` and
/// `pulldown_cmark::html::push_html`: the HTML depends on the text alone.
/// Broken links are left as their text.
#[verifier::external_body]
pub(crate) fn parse_markdown(input: &str) -> (r: String)
    ensures
        r@ == markdown_html(input@),
{
    let mut html = String::new();
    let parser = pulldown_cmark::Parser::new_ext(input, pulldown_cmark::Options::all());
    pulldown_cmark::html::push_html(&mut html, parser);
    html
}

/// Total tests the subtasks declare.
pub open spec fn declared_total(subtasks: Seq<Subtask>) -> int {
    declared_before(subtasks, subtasks.len() as int)
}

/// `tests` are the test files given to the subtasks in order: as many as
/// the subtasks declare or as there are files, each subtask taking the next
/// ones, as many as it declares.
pub open spec fn tests_materialized(
    tests: Seq<Test>,
    subtasks: Seq<Subtask>,
    files: Seq<(String, String)>,
) -> bool {
    &&& tests.len() == if files.len() < declared_total(subtasks) {
        files.len() as int
    } else {
        declared_total(subtasks)
    }
    &&& forall|j: int|
        0 <= j < tests.len() ==> {
            &&& (#[trigger] tests[j]).input@ == files[j].0@
            &&& tests[j].output@ == files[j].1@
            &&& 1 <= tests[j].subtask <= subtasks.len()
            &&& declared_before(subtasks, tests[j].subtask - 1) <= j < declared_before(
                subtasks,
                tests[j].subtask as int,
            )
        }
}

/// Gives the test files to the subtasks in order. `files` are the input
/// and expected output of tests 1, 2, ... as far as they were found; each
/// subtask takes as many as it declares, until the files run out.
pub fn materialize_tests(subtasks: &Vec<Subtask>, files: &Vec<(String, String)>) -> (r: Vec<Test>)
    ensures
        tests_materialized(r@, subtasks@, files@),
{
    let ghost st = subtasks@;
    let ghost f = files@.len() as int;
    let mut tests: Vec<Test> = Vec::new();
    let mut n: usize = 0;
    let mut i: usize = 0;
    while i < subtasks.len()
        invariant
            st == subtasks@,
            f == files@.len(),
            i <= st.len(),
            n == cursor(st, f, i as int),
            tests@.len() == n,
            forall|j: int|
                0 <= j < tests@.len() ==> {
                    &&& (#[trigger] tests@[j]).input@ == files@[j].0@
                    &&& tests@[j].output@ == files@[j].1@
                    &&& 1 <= tests@[j].subtask <= st.len()
                    &&& declared_before(st, tests@[j].subtask - 1) <= j < declared_before(
                        st,
                        tests@[j].subtask as int,
                    )
                },
        decreases st.len() - i,
    {
        let take = subtasks[i].tests;
        let index = i + 1;
        let start = n;
        let mut k: usize = 0;
        proof {
            assert(declared_before(st, i + 1) == declared_before(st, i as int) + take);
        }
        while k < take && n < files.len()
            invariant
                st == subtasks@,
                f == files@.len(),
                i < st.len(),
                index == i + 1,
                take == st[i as int].tests,
                declared_before(st, i + 1) == declared_before(st, i as int) + take,
                start == cursor(st, f, i as int),
                n == start + k,
                k <= take,
                n <= f,
                tests@.len() == n,
                forall|j: int|
                    0 <= j < tests@.len() ==> {
                        &&& (#[trigger] tests@[j]).input@ == files@[j].0@
                        &&& tests@[j].output@ == files@[j].1@
                        &&& 1 <= tests@[j].subtask <= st.len()
                        &&& declared_before(st, tests@[j].subtask - 1) <= j < declared_before(
                            st,
                            tests@[j].subtask as int,
                        )
                    },
            decreases take - k,
        {
            let file = &files[n];
            tests.push(Test { subtask: index, input: file.0.clone(), output: file.1.clone() });
            n = n + 1;
            k = k + 1;
        }
        proof {
            assert(n == cursor(st, f, i + 1));
        }
        i = i + 1;
    }
    tests
}

impl Task {
    /// A task from its front matter, its markdown statement and the test
    /// files found for it. A task must declare a subtask.
    pub fn from_frontmatter(
        frontmatter: TaskFrontmatter,
        body: &str,
        files: &Vec<(String, String)>,
    ) -> (r: Result<Task, LoadContestError>)
        ensures
            frontmatter.subtasks@.len() == 0 <==> r is Err,
            r matches Err(e) ==> e == LoadContestError::NoSubtasks,
            r matches Ok(t) ==> {
                &&& t.name == frontmatter.name
                &&& t.page@ == markdown_html(body@)
                &&& t.examples == frontmatter.examples
                &&& t.subtasks == frontmatter.subtasks
                &&& t.constraints == frontmatter.constraints
                &&& t.difficulty == frontmatter.difficulty
                &&& tests_materialized(t.tests@, t.subtasks@, files@)
            },
    {
        let page = parse_markdown(body);
        if frontmatter.subtasks.len() == 0 {
            return Err(LoadContestError::NoSubtasks);
        }
        let tests = materialize_tests(&frontmatter.subtasks, files);
        Ok(
            Task {
                name: frontmatter.name,
                page,
                examples: frontmatter.examples,
                subtasks: frontmatter.subtasks,
                constraints: frontmatter.constraints,
                tests,
                difficulty: frontmatter.difficulty,
            },
        )
    }
}

impl Contest {
    /// A contest from its front matter, the directory it was loaded from,
    /// its markdown description and its tasks, loaded in the order the front
    /// matter lists them. A cooldown or leaderboard size left out takes its
    /// default.
    pub fn from_frontmatter(
        frontmatter: ContestFrontmatter,
        path: &str,
        body: &str,
        tasks: Vec<Task>,
    ) -> (r: Contest)
        ensures
            r.name == frontmatter.name,
            r.path@ == path@,
            r.page@ == markdown_html(body@),
            r.tasks == tasks,
            r.languages == frontmatter.languages,
            r.duration == frontmatter.duration,
            r.cooldown == match frontmatter.cooldown {
                Some(c) => c,
                None => 3600,
            },
            r.leaderboard_size == match frontmatter.leaderboard_size {
                Some(n) => n,
                None => 100,
            },
            r.rlimits == frontmatter.rlimits,
    {
        let cooldown = match frontmatter.cooldown {
            Some(c) => c,
            None => cooldown(),
        };
        let leaderboard_size = match frontmatter.leaderboard_size {
            Some(n) => n,
            None => leaderboard_size(),
        };
        Contest {
            name: frontmatter.name,
            path: path.to_owned(),
            page: parse_markdown(body),
            tasks,
            languages: frontmatter.languages,
            duration: frontmatter.duration,
            cooldown,
            leaderboard_size,
            rlimits: frontmatter.rlimits,
        }
    }
}

} // verus!
