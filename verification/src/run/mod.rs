//! Facilities for running a BulletML script.

pub mod compile;
pub mod effort;
pub mod labels;
pub mod manager;
pub mod runner;
pub mod sure;
pub mod turn;
pub mod util;
pub mod zipper;

pub use self::manager::BulletManager;
pub use self::runner::Runner;
