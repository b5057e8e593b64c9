use online_judge::contest::{Difficulty, InvalidDifficulty};
use online_judge::verdict::{Color, InvalidVerdict, Verdict};

const ALL: [Verdict; 7] = [
    Verdict::CompileError,
    Verdict::RuntimeError,
    Verdict::WrongAnswer,
    Verdict::TimeLimitExceeded,
    Verdict::MemoryLimitExceeded,
    Verdict::PartialScore,
    Verdict::Accepted,
];

#[test]
fn verdict_display_strings() {
    assert_eq!(Verdict::CompileError.to_string(), "Compile Error");
    assert_eq!(Verdict::RuntimeError.to_string(), "Runtime Error");
    assert_eq!(Verdict::WrongAnswer.to_string(), "Wrong Answer");
    assert_eq!(Verdict::TimeLimitExceeded.to_string(), "Time Limit Exceeded");
    assert_eq!(Verdict::MemoryLimitExceeded.to_string(), "Memory Limit Exceeded");
    assert_eq!(Verdict::PartialScore.to_string(), "Partial Score");
    assert_eq!(Verdict::Accepted.to_string(), "Accepted");
}

#[test]
fn verdict_round_trip() {
    for v in ALL {
        assert_eq!(Verdict::from_str(&v.to_string()), Ok(v));
        assert_eq!(Verdict::from_str(&v.to_string().to_uppercase()), Ok(v));
        assert_eq!(Verdict::from_str(&v.to_string().to_lowercase()), Ok(v));
    }
}

#[test]
fn verdict_parse_mixed_case() {
    assert_eq!(Verdict::from_str("wRoNg AnSwEr"), Ok(Verdict::WrongAnswer));
    assert_eq!(Verdict::from_str("ACCEPTED"), Ok(Verdict::Accepted));
}

#[test]
fn verdict_parse_invalid() {
    assert_eq!(
        Verdict::from_str("Accepted!"),
        Err(InvalidVerdict("Accepted!".to_string()))
    );
    assert_eq!(Verdict::from_str(""), Err(InvalidVerdict(String::new())));
    assert_eq!(
        Verdict::from_str("wronganswer"),
        Err(InvalidVerdict("wronganswer".to_string()))
    );
}

#[test]
fn verdict_order_and_min() {
    for w in ALL.windows(2) {
        assert!(w[0] < w[1]);
        assert_eq!(w[0].min(w[1]), w[0]);
        assert_eq!(w[1].min(w[0]), w[0]);
    }
    assert_eq!(Verdict::Accepted.min(Verdict::Accepted), Verdict::Accepted);
}

#[test]
fn verdict_colors() {
    let p = Verdict::WrongAnswer.fmt_colored();
    assert_eq!(p.text, "Wrong Answer");
    assert_eq!(p.color, Color::Red);
    assert!(p.bold);
    assert_eq!(Verdict::CompileError.fmt_colored().color, Color::Yellow);
    assert_eq!(Verdict::MemoryLimitExceeded.fmt_colored().color, Color::Magenta);
    assert_eq!(Verdict::PartialScore.fmt_colored().color, Color::Blue);
    assert_eq!(Verdict::Accepted.fmt_colored().color, Color::Green);
}

#[test]
fn difficulty_round_trip() {
    for d in [Difficulty::Easy, Difficulty::Medium, Difficulty::Hard] {
        assert_eq!(Difficulty::from_str(&d.to_string()), Ok(d));
        assert_eq!(Difficulty::from_str(&d.to_string().to_uppercase()), Ok(d));
    }
    assert_eq!(Difficulty::Medium.to_string(), "Medium");
    assert_eq!(Difficulty::from_str("hArD"), Ok(Difficulty::Hard));
}

#[test]
fn difficulty_parse_invalid() {
    assert_eq!(
        Difficulty::from_str("impossible"),
        Err(InvalidDifficulty("impossible".to_string()))
    );
}
