use online_judge::contest::{ContestResourceLimits, Difficulty, Subtask, Contest, Task};
use online_judge::loader::{
    cooldown, leaderboard_size, materialize_tests, split_frontmatter, ContestFrontmatter,
    LoadContestError, TaskFrontmatter,
};
use online_judge::resource::ResourceLimits;

fn subtask(tests: usize) -> Subtask {
    Subtask {
        tests,
        constraints: vec![],
    }
}

fn files(n: usize) -> Vec<(String, String)> {
    (1..=n).map(|i| (format!("in{i}"), format!("out{i}"))).collect()
}

fn limits() -> ContestResourceLimits {
    ContestResourceLimits {
        build: ResourceLimits {
            cpu_seconds: 10,
            memory_bytes: 1 << 30,
        },
        run: ResourceLimits {
            cpu_seconds: 1,
            memory_bytes: 1 << 26,
        },
    }
}

#[test]
fn empty_file_has_no_frontmatter() {
    assert_eq!(split_frontmatter(""), Err(LoadContestError::NoFrontmatter));
}

#[test]
fn missing_closing_line_has_no_frontmatter() {
    assert_eq!(
        split_frontmatter("---\nname: x\n"),
        Err(LoadContestError::NoFrontmatter)
    );
    assert_eq!(
        split_frontmatter("name: x\n---\nbody"),
        Err(LoadContestError::NoFrontmatter)
    );
}

#[test]
fn frontmatter_is_split_from_body() {
    let (yaml, body) = split_frontmatter("---\nname: x\n---\n# Title\n").unwrap();
    assert_eq!(yaml, "name: x\n");
    assert_eq!(body, "# Title\n");
    let (yaml, body) = split_frontmatter("---\n---\n").unwrap();
    assert_eq!(yaml, "");
    assert_eq!(body, "");
    let (yaml, body) = split_frontmatter("---\nä: ü\n---\nß---\n").unwrap();
    assert_eq!(yaml, "ä: ü\n");
    assert_eq!(body, "ß---\n");
}

#[test]
fn tests_are_numbered_across_subtasks() {
    let t = materialize_tests(&vec![subtask(2), subtask(1)], &files(3));
    assert_eq!(t.len(), 3);
    assert_eq!(t[0].subtask, 1);
    assert_eq!(t[1].subtask, 1);
    assert_eq!(t[2].subtask, 2);
    assert_eq!(t[2].input, "in3");
    assert_eq!(t[2].output, "out3");
}

#[test]
fn missing_tests_end_materialization() {
    let t = materialize_tests(&vec![subtask(2), subtask(2)], &files(3));
    assert_eq!(t.len(), 3);
    assert_eq!(t[2].subtask, 2);
    let t = materialize_tests(&vec![subtask(1)], &files(3));
    assert_eq!(t.len(), 1);
}

#[test]
fn zero_subtasks_is_refused() {
    let fm = TaskFrontmatter {
        name: "a".to_string(),
        examples: vec![],
        subtasks: vec![],
        constraints: vec![],
        difficulty: None,
    };
    assert_eq!(
        Task::from_frontmatter(fm, "", &files(0)),
        Err(LoadContestError::NoSubtasks)
    );
}

#[test]
fn task_from_frontmatter() {
    let fm = TaskFrontmatter {
        name: "sum".to_string(),
        examples: vec![],
        subtasks: vec![subtask(1), subtask(1)],
        constraints: vec!["n <= 10".to_string()],
        difficulty: Some(Difficulty::Easy),
    };
    let t = Task::from_frontmatter(fm, "Add *two* numbers.", &files(2)).unwrap();
    assert_eq!(t.name, "sum");
    assert_eq!(t.tests.len(), 2);
    assert_eq!(t.tests[1].subtask, 2);
    assert_eq!(t.difficulty, Some(Difficulty::Easy));
    assert!(t.page.contains("<em>two</em>"));
    assert_ne!(t.page, "Add *two* numbers.");
}

#[test]
fn contest_defaults() {
    assert_eq!(cooldown(), 3600);
    assert_eq!(leaderboard_size(), 100);
    let fm = ContestFrontmatter {
        name: "c".to_string(),
        task_paths: vec![],
        languages: None,
        duration: 7200,
        cooldown: None,
        leaderboard_size: None,
        rlimits: limits(),
    };
    let c = Contest::from_frontmatter(fm, "/contests/c", "# Welcome", vec![]);
    assert_eq!(c.cooldown, 3600);
    assert_eq!(c.leaderboard_size, 100);
    assert_eq!(c.duration, 7200);
    assert_eq!(c.path, "/contests/c");
    assert!(c.page.contains("<h1>Welcome</h1>"));
}

#[test]
fn contest_explicit_settings() {
    let fm = ContestFrontmatter {
        name: "c".to_string(),
        task_paths: vec!["a".to_string()],
        languages: Some(vec!["C".to_string()]),
        duration: 60,
        cooldown: Some(30),
        leaderboard_size: Some(5),
        rlimits: limits(),
    };
    let c = Contest::from_frontmatter(fm, "p", "", vec![]);
    assert_eq!(c.cooldown, 30);
    assert_eq!(c.leaderboard_size, 5);
    assert_eq!(c.languages, Some(vec!["C".to_string()]));
}
