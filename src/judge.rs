//! Judging a submission: choosing the language, deciding the verdict of each
//! test from what the sandbox reports, and putting results in test order.
use vstd::prelude::*;

use rayon::slice::ParallelSliceMut;

use crate::contest::Test;
use crate::resource::{ResourceLimits, ResourceUsage, MICROS_PER_SECOND};
use crate::sandbox::{Command, ExecError, Output};
use crate::text::{decode, str_eq, trim, trim_of};
use crate::verdict::Verdict;

verus! {

/// A run killed by a signal within this many bytes of the memory limit hit it.
pub const MEMORY_USAGE_EPSILON: u64 = 1000;
/// A run killed by a signal within this many microseconds of the CPU limit hit it.
pub const TIME_ELAPSED_EPSILON_MICROS: u64 = 100_000;

/// The outcome of running a submission on one test.
#[derive(Debug, Clone, Copy, Hash, PartialEq, Eq, Structural)]
pub struct TestResult {
    pub verdict: Verdict,
    pub resource_usage: Option<ResourceUsage>,
}

/// The languages a judge knows.
#[derive(Debug, Clone, PartialEq, Eq)]
pub struct Config {
    pub languages: Vec<Language>,
}

/// How to build and run programs of one language.
#[derive(Debug, Clone, Hash, PartialEq, Eq)]
pub struct Language {
    pub name: String,
    /// The file the source is written to, in the scratch directory.
    pub filename: String,
    pub build: Option<Command>,
    pub run: Command,
}

/// A program sent in by a user, and the name of its language.
#[derive(Debug, Clone, Hash, PartialEq, Eq)]
pub struct Submission {
    pub code: String,
    pub language: String,
}

/// Why a submission could not be judged.
#[derive(Debug, Clone, PartialEq, Eq)]
pub enum JudgeError {
    /// The build failed; holds what the compiler wrote to stderr.
    CompileError(String),
    /// What the program wrote is not UTF-8.
    Utf8,
    /// An I/O failure; holds its description.
    Io(String),
    /// No language of this name is configured.
    UnknownLanguage(String),
    /// The program exited with a failure code; holds what it wrote to stderr.
    RuntimeError(String),
}

/// The characters of a language's name.
pub open spec fn language_names(ls: Seq<Language>) -> Seq<Seq<char>> {
    ls.map_values(|l: Language| l.name@)
}

/// Finds the first configured language with the given name.
pub fn find_language<'a>(config: &'a Config, name: &str) -> (r: Result<&'a Language, JudgeError>)
    ensures
        match r {
            Ok(l) => exists|i: int|
                0 <= i < config.languages@.len() && config.languages@[i] == *l && l.name@ == name@
                    && forall|k: int| 0 <= k < i ==> config.languages@[k].name@ != name@,
            Err(e) => (forall|k: int|
                0 <= k < config.languages@.len() ==> config.languages@[k].name@ != name@) && (
                e matches JudgeError::UnknownLanguage(n) && n@ == name@),
        },
{
    let mut i: usize = 0;
    while i < config.languages.len()
        invariant
            i <= config.languages@.len(),
            forall|k: int| 0 <= k < i ==> config.languages@[k].name@ != name@,
        decreases config.languages@.len() - i,
    {
        let l = &config.languages[i];
        if str_eq(l.name.as_str(), name) {
            return Ok(l);
        }
        i = i + 1;
    }
    Err(JudgeError::UnknownLanguage(name.to_owned()))
}

/// The build succeeded when the compiler exited with code 0; otherwise it is a
/// compile error that carries the compiler's stderr, or nothing where that is
/// not UTF-8.
pub fn build_outcome(output: &Output) -> (r: Result<(), JudgeError>)
    ensures
        output.exit_code == Some(0i32) ==> r is Ok,
        output.exit_code != Some(0i32) ==> (r matches Err(JudgeError::CompileError(e)) && e@ == if vstd::utf8::valid_utf8(output.stderr@) {
            vstd::utf8::decode_utf8(output.stderr@)
        } else {
            Seq::<char>::empty()
        }),
{
    match output.exit_code {
        Some(0) => Ok(()),
        _ => match decode(output.stderr.as_slice()) {
            Some(stderr) => Err(JudgeError::CompileError(stderr)),
            None => Err(JudgeError::CompileError(String::new())),
        },
    }
}

/// A child killed by a signal hit the memory limit if it used more memory,
/// or came within `MEMORY_USAGE_EPSILON` bytes of it.
pub open spec fn memory_exceeded(usage: ResourceUsage, limits: ResourceLimits) -> bool {
    usage.memory_bytes > limits.memory_bytes || limits.memory_bytes - usage.memory_bytes
        <= MEMORY_USAGE_EPSILON
}

/// A child killed by a signal hit the time limit if it used more CPU time,
/// or came within `TIME_ELAPSED_EPSILON_MICROS` of it.
pub open spec fn time_exceeded(usage: ResourceUsage, limits: ResourceLimits) -> bool {
    let limit = limits.cpu_seconds * MICROS_PER_SECOND;
    usage.spec_total_time() > limit || limit - usage.spec_total_time()
        <= TIME_ELAPSED_EPSILON_MICROS
}

/// The verdict of a child killed by a signal: the memory limit is looked at
/// first, then the time limit. Being killed within both is no verdict.
pub open spec fn spec_killed_verdict(usage: ResourceUsage, limits: ResourceLimits) -> Option<Verdict> {
    if memory_exceeded(usage, limits) {
        Some(Verdict::MemoryLimitExceeded)
    } else if time_exceeded(usage, limits) {
        Some(Verdict::TimeLimitExceeded)
    } else {
        None
    }
}

/// The verdict of a child killed by a signal, or none where it was within
/// both limits, which only a fault of the sandbox can cause.
pub fn killed_verdict(usage: ResourceUsage, limits: ResourceLimits) -> (r: Option<Verdict>)
    ensures
        r == spec_killed_verdict(usage, limits),
{
    if usage.memory_bytes > limits.memory_bytes || limits.memory_bytes - usage.memory_bytes
        <= MEMORY_USAGE_EPSILON {
        return Some(Verdict::MemoryLimitExceeded);
    }
    assert(limits.cpu_seconds as u128 * MICROS_PER_SECOND as u128 <= u64::MAX as u128 * 1_000_000)
        by (nonlinear_arith);
    let limit: u128 = limits.cpu_seconds as u128 * MICROS_PER_SECOND as u128;
    let total = usage.total_time();
    if total > limit || limit - total <= TIME_ELAPSED_EPSILON_MICROS as u128 {
        Some(Verdict::TimeLimitExceeded)
    } else {
        None
    }
}

/// The verdict of a child that exited with code 0: accepted when its output
/// and the expected output agree once surrounding whitespace is trimmed.
pub open spec fn output_verdict(stdout: Seq<char>, expected: Seq<char>) -> Verdict {
    if trim_of(stdout) == trim_of(expected) {
        Verdict::Accepted
    } else {
        Verdict::WrongAnswer
    }
}

/// Decides the result of one test from what running it gave:
/// - input refused by the child: a runtime error, with no usage;
/// - any other I/O failure: an error;
/// - output that is not UTF-8: an error;
/// - exit code 0: accepted or wrong answer, by the trimmed outputs;
/// - killed by a signal: memory, then time limit exceeded;
/// - any other exit code: a runtime error that stops judging, with stderr.
pub fn test(outcome: Result<Output, ExecError>, test_case: &Test, rlimits: ResourceLimits) -> (r: Result<
    TestResult,
    JudgeError,
>)
    requires
        outcome matches Ok(o) ==> (vstd::utf8::valid_utf8(o.stdout@) && o.exit_code is None
            ==> spec_killed_verdict(o.resource_usage, rlimits) is Some),
    ensures
        match outcome {
            Err(ExecError::BrokenPipe) => r == Ok::<TestResult, JudgeError>(
                TestResult { verdict: Verdict::RuntimeError, resource_usage: None },
            ),
            Err(ExecError::Io(m)) => r matches Err(JudgeError::Io(e)) && e@ == m@,
            Ok(o) => if !vstd::utf8::valid_utf8(o.stdout@) {
                r matches Err(JudgeError::Utf8)
            } else if o.exit_code == Some(0i32) {
                r == Ok::<TestResult, JudgeError>(
                    TestResult {
                        verdict: output_verdict(vstd::utf8::decode_utf8(o.stdout@), test_case.output@),
                        resource_usage: Some(o.resource_usage),
                    },
                )
            } else if o.exit_code is None {
                r == Ok::<TestResult, JudgeError>(
                    TestResult {
                        verdict: spec_killed_verdict(o.resource_usage, rlimits)->Some_0,
                        resource_usage: Some(o.resource_usage),
                    },
                )
            } else if !vstd::utf8::valid_utf8(o.stderr@) {
                r matches Err(JudgeError::Utf8)
            } else {
                r matches Err(JudgeError::RuntimeError(e)) && e@ == vstd::utf8::decode_utf8(
                    o.stderr@,
                )
            },
        },
{
    let output = match outcome {
        Ok(output) => output,
        Err(ExecError::BrokenPipe) => {
            return Ok(TestResult { verdict: Verdict::RuntimeError, resource_usage: None });
        },
        Err(ExecError::Io(m)) => {
            return Err(JudgeError::Io(m));
        },
    };
    let stdout = match decode(output.stdout.as_slice()) {
        Some(s) => s,
        None => {
            return Err(JudgeError::Utf8);
        },
    };
    let verdict = match output.exit_code {
        Some(0) => {
            if str_eq(trim(stdout.as_str()), trim(test_case.output.as_str())) {
                Verdict::Accepted
            } else {
                Verdict::WrongAnswer
            }
        },
        None => match killed_verdict(output.resource_usage, rlimits) {
            Some(v) => v,
            None => Verdict::RuntimeError,
        },
        Some(_) => {
            return match decode(output.stderr.as_slice()) {
                Some(stderr) => Err(JudgeError::RuntimeError(stderr)),
                None => Err(JudgeError::Utf8),
            };
        },
    };
    Ok(TestResult { verdict, resource_usage: Some(output.resource_usage) })
}

/// Relies on rayon's `ParallelSliceMut::par_sort_by_key`: it reorders the
/// elements so that their indices do not decrease.
#[verifier::external_body]
fn sort_by_index(v: &mut Vec<(usize, TestResult)>)
    ensures
        final(v)@.to_multiset() == old(v)@.to_multiset(),
        forall|i: int, j: int|
            0 <= i <= j < final(v)@.len() ==> #[trigger] final(v)@[i].0 <= #[trigger] final(v)@[j].0,
{
    v.par_sort_by_key(|p| p.0)
}

/// The indices of the pairs are `0..n`, each once.
pub open spec fn indices_are_permutation(pairs: Seq<(usize, TestResult)>) -> bool {
    &&& forall|k: int| 0 <= k < pairs.len() ==> #[trigger] pairs[k].0 < pairs.len()
    &&& forall|k: int, l: int|
        0 <= k < l < pairs.len() ==> #[trigger] pairs[k].0 != #[trigger] pairs[l].0
}

proof fn lemma_increasing_indices(b: Seq<(usize, TestResult)>, i: int)
    requires
        forall|k: int| 0 <= k < b.len() ==> #[trigger] b[k].0 < b.len(),
        forall|k: int| 0 <= k < b.len() - 1 ==> #[trigger] b[k].0 < b[k + 1].0,
        0 <= i < b.len(),
    ensures
        b[i].0 >= i,
    decreases i,
{
    if i > 0 {
        lemma_increasing_indices(b, i - 1);
    }
}

proof fn lemma_increasing_indices_down(b: Seq<(usize, TestResult)>, i: int)
    requires
        forall|k: int| 0 <= k < b.len() ==> #[trigger] b[k].0 < b.len(),
        forall|k: int| 0 <= k < b.len() - 1 ==> #[trigger] b[k].0 < b[k + 1].0,
        0 <= i < b.len(),
    ensures
        b[i].0 <= i,
    decreases b.len() - i,
{
    if i < b.len() - 1 {
        lemma_increasing_indices_down(b, i + 1);
    }
}

/// Sorting pairs whose indices are `0..n` puts index `i` at position `i`.
proof fn lemma_sorted_indices(a: Seq<(usize, TestResult)>, b: Seq<(usize, TestResult)>)
    requires
        indices_are_permutation(a),
        b.to_multiset() == a.to_multiset(),
        forall|i: int, j: int| 0 <= i <= j < b.len() ==> #[trigger] b[i].0 <= #[trigger] b[j].0,
    ensures
        b.len() == a.len(),
        forall|i: int| 0 <= i < b.len() ==> #[trigger] b[i].0 == i,
        forall|i: int| 0 <= i < b.len() ==> a.contains(#[trigger] b[i]),
        forall|k: int| 0 <= k < a.len() ==> b.contains(#[trigger] a[k]),
{
    broadcast use vstd::seq_lib::group_to_multiset_ensures;

    assert(b.len() == a.len()) by {
        assert(a.to_multiset().len() == a.len());
        assert(b.to_multiset().len() == b.len());
    }
    assert forall|i: int| 0 <= i < b.len() implies a.contains(#[trigger] b[i]) by {
        assert(b.to_multiset().count(b[i]) > 0);
    }
    assert forall|k: int| 0 <= k < a.len() implies b.contains(#[trigger] a[k]) by {
        assert(a.to_multiset().count(a[k]) > 0);
    }
    assert forall|i: int, j: int| 0 <= i < a.len() && 0 <= j < a.len() && i != j implies a[i]
        != a[j] by {
        if i < j {
            assert(a[i].0 != a[j].0);
        } else {
            assert(a[j].0 != a[i].0);
        }
    }
    assert(a.no_duplicates());
    a.lemma_multiset_has_no_duplicates();
    b.lemma_multiset_has_no_duplicates_conv();
    assert forall|k: int| 0 <= k < b.len() implies #[trigger] b[k].0 < b.len() by {
        assert(a.contains(b[k]));
    }
    assert forall|k: int| 0 <= k < b.len() - 1 implies #[trigger] b[k].0 < b[k + 1].0 by {
        assert(b[k].0 <= b[k + 1].0);
        if b[k].0 == b[k + 1].0 {
            assert(a.contains(b[k]));
            assert(a.contains(b[k + 1]));
            let x = choose|x: int| 0 <= x < a.len() && a[x] == b[k];
            let y = choose|y: int| 0 <= y < a.len() && a[y] == b[k + 1];
            assert(b[k] != b[k + 1]);
            if x < y {
                assert(a[x].0 != a[y].0);
            } else {
                assert(a[y].0 != a[x].0);
            }
        }
    }
    assert forall|i: int| 0 <= i < b.len() implies #[trigger] b[i].0 == i by {
        lemma_increasing_indices(b, i);
        lemma_increasing_indices_down(b, i);
    }
}

/// Puts results, each paired with the index of its test, in test order: the
/// result paired with index `i` lands at position `i`.
pub fn order_results(pairs: Vec<(usize, TestResult)>) -> (r: Vec<TestResult>)
    requires
        indices_are_permutation(pairs@),
    ensures
        r@.len() == pairs@.len(),
        forall|k: int| 0 <= k < pairs@.len() ==> r@[pairs@[k].0 as int] == #[trigger] pairs@[k].1,
{
    let ghost original = pairs@;
    let mut sorted = pairs;
    sort_by_index(&mut sorted);
    proof {
        lemma_sorted_indices(original, sorted@);
    }
    let mut r: Vec<TestResult> = Vec::new();
    let mut i: usize = 0;
    while i < sorted.len()
        invariant
            i <= sorted@.len(),
            r@.len() == i,
            forall|k: int| 0 <= k < i ==> r@[k] == #[trigger] sorted@[k].1,
        decreases sorted@.len() - i,
    {
        r.push(sorted[i].1);
        i = i + 1;
    }
    proof {
        assert forall|k: int| 0 <= k < original.len() implies r@[original[k].0 as int]
            == #[trigger] original[k].1 by {
            assert(sorted@.contains(original[k]));
            let p = choose|p: int| 0 <= p < sorted@.len() && sorted@[p] == original[k];
            assert(sorted@[p].0 == p);
        }
    }
    r
}

} // verus!
