use online_judge::contest::{Subtask, Task, Test};
use online_judge::grade::grade;
use online_judge::judge;
use online_judge::judge::{
    build_outcome, find_language, killed_verdict, order_results, Config, JudgeError,
    Language, TestResult,
};
use online_judge::resource::{ResourceLimits, ResourceUsage};
use online_judge::sandbox::{Command, ExecError, Output};
use online_judge::verdict::Verdict;

const LIMITS: ResourceLimits = ResourceLimits {
    cpu_seconds: 1,
    memory_bytes: 67_108_864,
};

fn usage(micros: u64, memory_bytes: u64) -> ResourceUsage {
    ResourceUsage {
        user_time: micros,
        sys_time: 0,
        memory_bytes,
    }
}

fn output(exit_code: Option<i32>, stdout: &str, stderr: &str, u: ResourceUsage) -> Output {
    Output {
        exit_code,
        stdout: stdout.as_bytes().to_vec(),
        stderr: stderr.as_bytes().to_vec(),
        resource_usage: u,
    }
}

fn case(input: &str, expected: &str) -> Test {
    Test {
        subtask: 1,
        input: input.to_string(),
        output: expected.to_string(),
    }
}

fn task(subtasks: &[usize], tests: Vec<Test>) -> Task {
    Task {
        name: "t".to_string(),
        page: String::new(),
        examples: vec![],
        subtasks: subtasks
            .iter()
            .map(|&tests| Subtask {
                tests,
                constraints: vec![],
            })
            .collect(),
        constraints: vec![],
        tests,
        difficulty: None,
    }
}

fn result(verdict: Verdict) -> TestResult {
    TestResult {
        verdict,
        resource_usage: Some(usage(10, 10)),
    }
}

fn config() -> Config {
    Config {
        languages: vec![
            Language {
                name: "C".to_string(),
                filename: "main.c".to_string(),
                build: Some(Command::new("cc", vec!["main.c".to_string()])),
                run: Command::new("./a.out", vec![]),
            },
            Language {
                name: "Python".to_string(),
                filename: "main.py".to_string(),
                build: None,
                run: Command::new("python3", vec!["main.py".to_string()]),
            },
        ],
    }
}

#[test]
fn cat_program_is_accepted() {
    let u = usage(1000, 4096);
    let t1 = case("1\n", "1");
    let t2 = case("hello\n", "hello");
    let r1 = judge::test(Ok(output(Some(0), "1\n", "", u)), &t1, LIMITS).unwrap();
    let r2 = judge::test(Ok(output(Some(0), "hello\n", "", u)), &t2, LIMITS).unwrap();
    assert_eq!(r1.verdict, Verdict::Accepted);
    assert_eq!(r2.verdict, Verdict::Accepted);
    assert_eq!(r1.resource_usage, Some(u));
    let g = grade(&task(&[2], vec![t1, t2]), &[r1, r2]);
    assert_eq!(g.verdict, Verdict::Accepted);
    assert_eq!(g.score, 2);
}

#[test]
fn constant_program_is_wrong() {
    let u = usage(1000, 4096);
    let t1 = case("1\n", "1");
    let t2 = case("hello\n", "hello");
    let r1 = judge::test(Ok(output(Some(0), "2\n", "", u)), &t1, LIMITS).unwrap();
    let r2 = judge::test(Ok(output(Some(0), "2\n", "", u)), &t2, LIMITS).unwrap();
    assert_eq!(r1.verdict, Verdict::WrongAnswer);
    assert_eq!(r2.verdict, Verdict::WrongAnswer);
    let g = grade(&task(&[2], vec![t1, t2]), &[r1, r2]);
    assert_eq!(g.verdict, Verdict::WrongAnswer);
    assert_eq!(g.score, 0);
}

#[test]
fn busy_loop_exceeds_time() {
    let u = usage(1_000_500, 1_000_000);
    let r = judge::test(Ok(output(None, "", "", u)), &case("", ""), LIMITS).unwrap();
    assert_eq!(r.verdict, Verdict::TimeLimitExceeded);
    assert!(r.resource_usage.unwrap().total_time() >= 1_000_000);
}

#[test]
fn large_allocation_exceeds_memory() {
    let u = usage(20_000, 67_200_000);
    let r = judge::test(Ok(output(None, "", "", u)), &case("", ""), LIMITS).unwrap();
    assert_eq!(r.verdict, Verdict::MemoryLimitExceeded);
}

#[test]
fn memory_within_margin_exceeds_memory() {
    let u = usage(20_000, LIMITS.memory_bytes - 1000);
    assert_eq!(killed_verdict(u, LIMITS), Some(Verdict::MemoryLimitExceeded));
    let u = usage(20_000, LIMITS.memory_bytes - 1001);
    assert_eq!(killed_verdict(u, LIMITS), None);
}

#[test]
fn time_within_margin_exceeds_time() {
    let u = usage(900_000, 1_000);
    assert_eq!(killed_verdict(u, LIMITS), Some(Verdict::TimeLimitExceeded));
    let u = usage(899_999, 1_000);
    assert_eq!(killed_verdict(u, LIMITS), None);
    let both = ResourceUsage {
        user_time: 600_000,
        sys_time: 300_000,
        memory_bytes: 1_000,
    };
    assert_eq!(killed_verdict(both, LIMITS), Some(Verdict::TimeLimitExceeded));
}

#[test]
fn memory_is_checked_before_time() {
    let u = usage(5_000_000, 100_000_000);
    assert_eq!(killed_verdict(u, LIMITS), Some(Verdict::MemoryLimitExceeded));
}

#[test]
fn broken_pipe_is_runtime_error_without_usage() {
    let r = judge::test(Err(ExecError::BrokenPipe), &case("x", "y"), LIMITS).unwrap();
    assert_eq!(r.verdict, Verdict::RuntimeError);
    assert_eq!(r.resource_usage, None);
}

#[test]
fn other_io_error_is_an_error() {
    let r = judge::test(Err(ExecError::Io("boom".to_string())), &case("x", "y"), LIMITS);
    assert_eq!(r, Err(JudgeError::Io("boom".to_string())));
}

#[test]
fn nonzero_exit_is_runtime_error() {
    let u = usage(10, 10);
    let r = judge::test(Ok(output(Some(1), "", "panic!", u)), &case("x", "y"), LIMITS);
    assert_eq!(r, Err(JudgeError::RuntimeError("panic!".to_string())));
}

#[test]
fn invalid_utf8_output_is_an_error() {
    let o = Output {
        exit_code: Some(0),
        stdout: vec![0xff, 0xfe],
        stderr: vec![],
        resource_usage: usage(10, 10),
    };
    assert_eq!(judge::test(Ok(o), &case("x", "y"), LIMITS), Err(JudgeError::Utf8));
}

#[test]
fn output_is_compared_trimmed() {
    let u = usage(10, 10);
    let r = judge::test(Ok(output(Some(0), "  42 \n\n", "", u)), &case("", "42\n"), LIMITS).unwrap();
    assert_eq!(r.verdict, Verdict::Accepted);
    let r = judge::test(Ok(output(Some(0), "4 2", "", u)), &case("", "42"), LIMITS).unwrap();
    assert_eq!(r.verdict, Verdict::WrongAnswer);
}

#[test]
fn failed_build_is_compile_error() {
    let o = output(Some(1), "", "error: foo", usage(10, 10));
    assert_eq!(
        build_outcome(&o),
        Err(JudgeError::CompileError("error: foo".to_string()))
    );
    let killed = output(None, "", "", usage(10, 10));
    assert_eq!(
        build_outcome(&killed),
        Err(JudgeError::CompileError(String::new()))
    );
    let ok = output(Some(0), "", "warning", usage(10, 10));
    assert_eq!(build_outcome(&ok), Ok(()));
}

#[test]
fn unknown_language() {
    let c = config();
    assert_eq!(
        find_language(&c, "Pascal"),
        Err(JudgeError::UnknownLanguage("Pascal".to_string()))
    );
    assert_eq!(find_language(&c, "Python").unwrap().filename, "main.py");
    assert_eq!(find_language(&c, "C").unwrap().filename, "main.c");
    assert!(find_language(&c, "c").is_err());
}

#[test]
fn results_come_back_in_test_order() {
    let pairs = vec![
        (2, result(Verdict::WrongAnswer)),
        (0, result(Verdict::Accepted)),
        (3, result(Verdict::TimeLimitExceeded)),
        (1, result(Verdict::RuntimeError)),
    ];
    let r = order_results(pairs);
    let verdicts: Vec<Verdict> = r.iter().map(|t| t.verdict).collect();
    assert_eq!(
        verdicts,
        vec![
            Verdict::Accepted,
            Verdict::RuntimeError,
            Verdict::WrongAnswer,
            Verdict::TimeLimitExceeded
        ]
    );
    assert!(order_results(vec![]).is_empty());
}

#[test]
fn grade_splits_results_by_subtask() {
    let t = task(&[2, 3, 1], vec![]);
    let results = [
        result(Verdict::Accepted),
        result(Verdict::Accepted),
        result(Verdict::Accepted),
        result(Verdict::WrongAnswer),
        result(Verdict::TimeLimitExceeded),
        result(Verdict::Accepted),
    ];
    let g = grade(&t, &results);
    assert_eq!(g.subtasks.len(), 3);
    assert_eq!(g.subtasks[0].tests.len(), 2);
    assert_eq!(g.subtasks[0].verdict, Verdict::Accepted);
    assert_eq!(g.subtasks[0].score, 2);
    assert_eq!(g.subtasks[1].tests.len(), 3);
    assert_eq!(g.subtasks[1].verdict, Verdict::WrongAnswer);
    assert_eq!(g.subtasks[1].score, 1);
    assert_eq!(g.subtasks[1].tests[2].verdict, Verdict::TimeLimitExceeded);
    assert_eq!(g.subtasks[1].tests[2].score, 0);
    assert_eq!(g.subtasks[2].score, 1);
    assert_eq!(g.verdict, Verdict::WrongAnswer);
    assert_eq!(g.score, 4);
}

#[test]
fn grade_short_results() {
    let t = task(&[2, 2], vec![]);
    let results = [result(Verdict::Accepted), result(Verdict::Accepted), result(Verdict::RuntimeError)];
    let g = grade(&t, &results);
    assert_eq!(g.subtasks[0].tests.len(), 2);
    assert_eq!(g.subtasks[1].tests.len(), 1);
    assert_eq!(g.subtasks[1].verdict, Verdict::RuntimeError);
    assert_eq!(g.verdict, Verdict::RuntimeError);
    assert_eq!(g.score, 2);
}

#[test]
fn grade_extra_results_are_ignored() {
    let t = task(&[1], vec![]);
    let results = [result(Verdict::Accepted), result(Verdict::CompileError)];
    let g = grade(&t, &results);
    assert_eq!(g.subtasks[0].tests.len(), 1);
    assert_eq!(g.verdict, Verdict::Accepted);
    assert_eq!(g.score, 1);
}

#[test]
fn grade_empty_results() {
    let t = task(&[2], vec![]);
    let g = grade(&t, &[]);
    assert_eq!(g.verdict, Verdict::Accepted);
    assert_eq!(g.score, 0);
    assert!(g.subtasks.is_empty());
}

#[test]
fn failed_build_grade() {
    let g = online_judge::grade::GradedTask::failed_build();
    assert_eq!(g.verdict, Verdict::CompileError);
    assert_eq!(g.score, 0);
    assert!(g.subtasks.is_empty());
}
