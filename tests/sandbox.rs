use online_judge::resource::{
    peak_memory, timeval_to_micros, usage_from_rusage, ResourceLimits, ResourceUsage,
};
use online_judge::sandbox::{
    enforcement_outcome, restrictions, Command, EnforcementStatus, InvalidCommand, LandlockError,
    Profile, Restriction,
};

#[test]
fn command_is_split_on_whitespace() {
    let c = Command::from_str("  g++ -O2\tmain.cpp \n").unwrap();
    assert_eq!(c.executable, "g++");
    assert_eq!(c.args, vec!["-O2".to_string(), "main.cpp".to_string()]);
    let c = Command::from_str("./a.out").unwrap();
    assert_eq!(c.executable, "./a.out");
    assert!(c.args.is_empty());
}

#[test]
fn empty_command_is_invalid() {
    assert_eq!(Command::from_str(""), Err(InvalidCommand(String::new())));
    assert_eq!(
        Command::from_str(" \t\n"),
        Err(InvalidCommand(" \t\n".to_string()))
    );
}

#[test]
fn command_new() {
    let c = Command::new("python3", vec!["main.py".to_string()]);
    assert_eq!(c, Command::from_str("python3 main.py").unwrap());
}

#[test]
fn restriction_order() {
    assert_eq!(restrictions(Profile::Build), vec![Restriction::SetResourceLimits]);
    assert_eq!(
        restrictions(Profile::Run),
        vec![
            Restriction::ConfineFilesystem,
            Restriction::SetResourceLimits,
            Restriction::FilterSyscalls
        ]
    );
}

#[test]
fn landlock_enforcement() {
    assert_eq!(enforcement_outcome(EnforcementStatus::FullyEnforced), Ok(()));
    assert_eq!(enforcement_outcome(EnforcementStatus::PartiallyEnforced), Ok(()));
    assert_eq!(
        enforcement_outcome(EnforcementStatus::NotEnforced),
        Err(LandlockError::Unsupported)
    );
}

#[test]
fn rlimit_bounds() {
    let l = ResourceLimits {
        cpu_seconds: 2,
        memory_bytes: 1_000_000,
    };
    assert_eq!(l.cpu_rlimit(), (2, 3));
    assert_eq!(l.memory_rlimit(), (1_000_000, 1_001_000));
    let max = ResourceLimits {
        cpu_seconds: u64::MAX,
        memory_bytes: u64::MAX - 10,
    };
    assert_eq!(max.cpu_rlimit(), (u64::MAX, u64::MAX));
    assert_eq!(max.memory_rlimit(), (u64::MAX - 10, u64::MAX));
}

#[test]
fn rusage_conversion() {
    assert_eq!(timeval_to_micros(2, 500_000), 2_500_000);
    assert_eq!(peak_memory(1000, 4096), 2_048_000);
    let u = usage_from_rusage(1, 250_000, 0, 750_000, 10, 4096);
    assert_eq!(
        u,
        ResourceUsage {
            user_time: 1_250_000,
            sys_time: 750_000,
            memory_bytes: 20_480,
        }
    );
    assert_eq!(u.total_time(), 2_000_000);
}
