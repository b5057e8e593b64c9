//! Grading: per-test results folded into subtask and task verdicts and scores.
use vstd::prelude::*;

use crate::contest::{Subtask, Task};
use crate::judge::TestResult;
use crate::resource::ResourceUsage;
use crate::verdict::Verdict;

verus! {

/// The grade of a whole task.
#[derive(Debug, Clone, Hash, PartialEq, Eq)]
pub struct GradedTask {
    pub verdict: Verdict,
    pub score: u32,
    pub subtasks: Vec<GradedSubtask>,
}

/// The grade of one subtask.
#[derive(Debug, Clone, Hash, PartialEq, Eq)]
pub struct GradedSubtask {
    pub verdict: Verdict,
    pub score: u32,
    pub tests: Vec<GradedTest>,
}

/// The grade of one test: its verdict, 1 if it was accepted and 0 otherwise,
/// and what the run used.
#[derive(Debug, Clone, Copy, Hash, PartialEq, Eq)]
pub struct GradedTest {
    pub verdict: Verdict,
    pub score: u32,
    pub resource_usage: Option<ResourceUsage>,
}

impl GradedTask {
    /// The grade of a submission that did not build: a compile error with
    /// score 0 and no subtasks.
    pub fn failed_build() -> (r: GradedTask)
        ensures
            r.verdict == Verdict::CompileError,
            r.score == 0,
            r.subtasks@.len() == 0,
    {
        GradedTask { verdict: Verdict::CompileError, score: 0, subtasks: Vec::new() }
    }
}

/// 1 for an accepted test, 0 for any other.
pub open spec fn test_score(v: Verdict) -> nat {
    if v == Verdict::Accepted {
        1
    } else {
        0
    }
}

/// The grade of one test result.
pub open spec fn graded_test(r: TestResult) -> GradedTest {
    GradedTest {
        verdict: r.verdict,
        score: test_score(r.verdict) as u32,
        resource_usage: r.resource_usage,
    }
}

/// The worst verdict among `rs`; `Accepted` when there is none.
pub open spec fn min_verdict(rs: Seq<TestResult>) -> Verdict
    decreases rs.len(),
{
    if rs.len() == 0 {
        Verdict::Accepted
    } else {
        min_verdict(rs.drop_last()).spec_min(rs.last().verdict)
    }
}

/// How many of `rs` were accepted.
pub open spec fn accepted_count(rs: Seq<TestResult>) -> nat
    decreases rs.len(),
{
    if rs.len() == 0 {
        0
    } else {
        accepted_count(rs.drop_last()) + test_score(rs.last().verdict)
    }
}

/// Sum of the scores of graded tests.
pub open spec fn test_scores(ts: Seq<GradedTest>) -> int
    decreases ts.len(),
{
    if ts.len() == 0 {
        0
    } else {
        test_scores(ts.drop_last()) + ts.last().score
    }
}

/// Sum of the scores of graded subtasks.
pub open spec fn subtask_scores(ss: Seq<GradedSubtask>) -> int
    decreases ss.len(),
{
    if ss.len() == 0 {
        0
    } else {
        subtask_scores(ss.drop_last()) + ss.last().score
    }
}

/// The worst verdict among the results is the verdict of one of them, no
/// verdict among them is worse, and where all were accepted it is `Accepted`.
pub proof fn lemma_min_verdict_is_minimum(rs: Seq<TestResult>)
    ensures
        forall|k: int| 0 <= k < rs.len() ==> min_verdict(rs).rank() <= #[trigger] rs[k].verdict.rank(),
        rs.len() > 0 ==> exists|k: int| 0 <= k < rs.len() && #[trigger] rs[k].verdict == min_verdict(rs),
        (forall|k: int| 0 <= k < rs.len() ==> #[trigger] rs[k].verdict == Verdict::Accepted)
            ==> min_verdict(rs) == Verdict::Accepted,
    decreases rs.len(),
{
    if rs.len() > 0 {
        let p = rs.drop_last();
        lemma_min_verdict_is_minimum(p);
        assert forall|k: int| 0 <= k < rs.len() implies min_verdict(rs).rank() <= #[trigger] rs[k].verdict.rank() by {
            if k < rs.len() - 1 {
                assert(rs[k] == p[k]);
            }
        }
        if p.len() > 0 && min_verdict(rs) == min_verdict(p) {
            let k = choose|k: int| 0 <= k < p.len() && #[trigger] p[k].verdict == min_verdict(p);
            assert(rs[k] == p[k]);
        } else {
            assert(rs[rs.len() - 1].verdict == min_verdict(rs));
        }
        if forall|k: int| 0 <= k < rs.len() ==> #[trigger] rs[k].verdict == Verdict::Accepted {
            assert forall|k: int| 0 <= k < p.len() implies #[trigger] p[k].verdict == Verdict::Accepted by {
                assert(rs[k] == p[k]);
            }
            assert(rs[rs.len() - 1].verdict == Verdict::Accepted);
        }
    }
}

/// Tests declared by the subtasks before the `i`-th.
pub open spec fn declared_before(subtasks: Seq<Subtask>, i: int) -> int
    decreases i,
{
    if i <= 0 {
        0
    } else {
        declared_before(subtasks, i - 1) + subtasks[i - 1].tests
    }
}

proof fn lemma_declared_before_nonneg(subtasks: Seq<Subtask>, i: int)
    ensures
        declared_before(subtasks, i) >= 0,
    decreases i,
{
    if i > 0 {
        lemma_declared_before_nonneg(subtasks, i - 1);
    }
}

/// Where the `i`-th subtask starts reading in `n` results: after those that
/// the subtasks before it declared, or at the end.
pub open spec fn cursor(subtasks: Seq<Subtask>, n: int, i: int) -> int {
    if declared_before(subtasks, i) < n {
        declared_before(subtasks, i)
    } else {
        n
    }
}

/// The results graded in the `i`-th subtask.
pub open spec fn subtask_results(subtasks: Seq<Subtask>, rs: Seq<TestResult>, i: int) -> Seq<
    TestResult,
> {
    rs.subrange(cursor(subtasks, rs.len() as int, i), cursor(subtasks, rs.len() as int, i + 1))
}

/// The results graded at all: those the subtasks' declared counts reach.
pub open spec fn graded_results(subtasks: Seq<Subtask>, rs: Seq<TestResult>) -> Seq<TestResult> {
    rs.subrange(0, cursor(subtasks, rs.len() as int, subtasks.len() as int))
}

/// Grades the results of running a submission on `task.tests`, in order.
/// Subtasks take the next results, as many as each declares or as many as
/// are left. A subtask's verdict is the worst among its tests and its score
/// the number accepted; the task's are the worst and the sum over subtasks.
/// No results at all give `Accepted` with score 0 and no subtasks.
pub fn grade(task: &Task, results: &[TestResult]) -> (r: GradedTask)
    requires
        results@.len() <= u32::MAX,
    ensures
        results@.len() == 0 ==> r.subtasks@.len() == 0,
        results@.len() > 0 ==> r.subtasks@.len() == task.subtasks@.len(),
        forall|i: int|
            #![trigger r.subtasks@[i]]
            0 <= i < r.subtasks@.len() ==> {
                let rs = subtask_results(task.subtasks@, results@, i);
                &&& r.subtasks@[i].tests@ == rs.map_values(|t: TestResult| graded_test(t))
                &&& r.subtasks@[i].verdict == min_verdict(rs)
                &&& r.subtasks@[i].score == accepted_count(rs)
            },
        forall|i: int|
            #![trigger r.subtasks@[i]]
            0 <= i < r.subtasks@.len() ==> {
                let c = cursor(task.subtasks@, results@.len() as int, i);
                &&& r.subtasks@[i].tests@.len() == if task.subtasks@[i].tests
                    < results@.len() - c {
                    task.subtasks@[i].tests as int
                } else {
                    results@.len() - c
                }
                &&& r.subtasks@[i].score == test_scores(r.subtasks@[i].tests@)
            },
        r.score == subtask_scores(r.subtasks@),
        r.verdict == min_verdict(graded_results(task.subtasks@, results@)),
        r.score == accepted_count(graded_results(task.subtasks@, results@)),
{
    let mut grade = GradedTask { verdict: Verdict::Accepted, score: 0, subtasks: Vec::new() };
    if results.len() == 0 {
        proof {
            lemma_declared_before_nonneg(task.subtasks@, task.subtasks@.len() as int);
            assert(graded_results(task.subtasks@, results@) =~= Seq::<TestResult>::empty());
        }
        return grade;
    }
    let ghost st = task.subtasks@;
    let ghost rs = results@;
    let ghost n = results@.len() as int;
    let mut j: usize = 0;
    let mut i: usize = 0;
    while i < task.subtasks.len()
        invariant
            st == task.subtasks@,
            rs == results@,
            n == rs.len(),
            n <= u32::MAX,
            i <= st.len(),
            j == cursor(st, n, i as int),
            grade.subtasks@.len() == i,
            forall|k: int|
                #![trigger grade.subtasks@[k]]
                0 <= k < i ==> {
                    let sr = subtask_results(st, rs, k);
                    &&& grade.subtasks@[k].tests@ == sr.map_values(|t: TestResult| graded_test(t))
                    &&& grade.subtasks@[k].verdict == min_verdict(sr)
                    &&& grade.subtasks@[k].score == accepted_count(sr)
                    &&& grade.subtasks@[k].score == test_scores(grade.subtasks@[k].tests@)
                    &&& grade.subtasks@[k].tests@.len() == if st[k].tests < n - cursor(st, n, k) {
                        st[k].tests as int
                    } else {
                        n - cursor(st, n, k)
                    }
                },
            grade.score == subtask_scores(grade.subtasks@),
            grade.verdict == min_verdict(rs.subrange(0, j as int)),
            grade.score == accepted_count(rs.subrange(0, j as int)),
            grade.score <= j,
        decreases st.len() - i,
    {
        let take = task.subtasks[i].tests;
        let start = j;
        let mut sub = GradedSubtask { verdict: Verdict::Accepted, score: 0, tests: Vec::new() };
        let mut k: usize = 0;
        proof {
            assert(rs.subrange(start as int, start as int) =~= Seq::<TestResult>::empty());
        }
        while k < take && j < results.len()
            invariant
                st == task.subtasks@,
                rs == results@,
                n == rs.len(),
                n <= u32::MAX,
                i < st.len(),
                take == st[i as int].tests,
                start == cursor(st, n, i as int),
                j == start + k,
                k <= take,
                j <= n,
                sub.tests@ == rs.subrange(start as int, j as int).map_values(
                    |t: TestResult| graded_test(t),
                ),
                sub.verdict == min_verdict(rs.subrange(start as int, j as int)),
                sub.score == accepted_count(rs.subrange(start as int, j as int)),
                sub.score == test_scores(sub.tests@),
                grade.score == subtask_scores(grade.subtasks@),
                grade.verdict == min_verdict(rs.subrange(0, start as int)),
                grade.score == accepted_count(rs.subrange(0, start as int)),
                grade.verdict.spec_min(sub.verdict) == min_verdict(rs.subrange(0, j as int)),
                grade.score + sub.score == accepted_count(rs.subrange(0, j as int)),
                grade.score + sub.score <= j,
            decreases take - k,
        {
            let t = results[j];
            let score: u32 = match t.verdict {
                Verdict::Accepted => 1,
                _ => 0,
            };
            proof {
                let a = rs.subrange(start as int, j as int);
                let b = rs.subrange(start as int, j + 1);
                let c = rs.subrange(0, j as int);
                let d = rs.subrange(0, j + 1);
                assert(b.drop_last() =~= a);
                assert(d.drop_last() =~= c);
                assert(b.last() == t);
                assert(d.last() == t);
            }
            sub.score = sub.score + score;
            sub.verdict = sub.verdict.min(t.verdict);
            let ghost before = sub.tests@;
            sub.tests.push(GradedTest { verdict: t.verdict, score, resource_usage: t.resource_usage });
            proof {
                assert(sub.tests@.drop_last() =~= before);
            }
            j = j + 1;
            k = k + 1;
            proof {
                assert(sub.tests@ =~= rs.subrange(start as int, j as int).map_values(
                    |t: TestResult| graded_test(t),
                ));
            }
        }
        proof {
            assert(declared_before(st, i + 1) == declared_before(st, i as int) + take);
            assert(j == cursor(st, n, i + 1));
        }
        grade.verdict = grade.verdict.min(sub.verdict);
        grade.score = grade.score + sub.score;
        let ghost before = grade.subtasks@;
        grade.subtasks.push(sub);
        proof {
            assert(grade.subtasks@.drop_last() =~= before);
        }
        i = i + 1;
    }
    grade
}

} // verus!
