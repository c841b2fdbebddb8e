//! The runs of pick mode. Each says what is to be done outside (pick, ask, relaunch,
//! extract), takes what came of it, and says what comes next. What a run comes to is
//! a function of those answers.

pub mod click;
pub mod export;
pub mod hover;
pub mod keys;
pub mod pick;
pub mod relaunch;
pub mod start;
