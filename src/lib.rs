//! An online programming-contest judge: verdict algebra, grading, the
//! per-test decision procedure, task loading and the leaderboard.

pub mod contest;
pub mod grade;
pub mod judge;
pub mod leaderboard;
pub mod loader;
pub mod resource;
pub mod sandbox;
pub mod text;
pub mod user;
pub mod verdict;
